use jsongen::engine::{
    emit_array, emit_escape, emit_exp, emit_hex, emit_int, emit_json, emit_number, emit_object,
    emit_pair, emit_safe_code_point, emit_string, emit_unicode, emit_value, enter, push_scalar,
};
use jsongen::model::Limits;
use jsongen::rng::Rng;
use jsongen::source::Replay;

fn limits() -> Limits {
    Limits::standard()
}

fn text(buf: &[u8]) -> String {
    String::from_utf8(buf.to_vec()).unwrap()
}

#[test]
fn standard_limits_are_the_constants() {
    let l = Limits::standard();
    assert_eq!(l.max_depth, 128);
    assert_eq!(l.max_repeat, 16);
    assert_eq!(jsongen::MAX_DEPTH, 128);
    assert_eq!(jsongen::MAX_REPEAT, 16);
}

#[test]
fn limits_need_both_bounds_positive() {
    assert!(Limits::new(0, 16).is_none());
    assert!(Limits::new(128, 0).is_none());
    assert!(Limits::new(0, 0).is_none());
    let l = Limits::new(1, 1).unwrap();
    assert_eq!((l.max_depth, l.max_repeat), (1, 1));
    let l = Limits::new(7, 3).unwrap();
    assert_eq!((l.max_depth, l.max_repeat), (7, 3));
}

#[test]
fn enter_counts_one() {
    let mut depth = 41;
    enter(&mut depth);
    assert_eq!(depth, 42);
}

#[test]
fn enter_stays_at_the_top() {
    let mut depth = u64::MAX;
    enter(&mut depth);
    assert_eq!(depth, u64::MAX);
}

#[test]
fn int_zero() {
    let mut src = Replay::new(vec![0, 7, 7, 7]);
    let (mut depth, mut buf) = (0, Vec::new());
    emit_int(&mut src, limits(), &mut depth, &mut buf);
    assert_eq!(text(&buf), "0");
    assert_eq!(depth, 1);
    assert_eq!(src.at, 1);
}

#[test]
fn int_with_digits() {
    let mut src = Replay::new(vec![1, 4, 2, 7, 9, 100]);
    let (mut depth, mut buf) = (0, Vec::new());
    emit_int(&mut src, limits(), &mut depth, &mut buf);
    assert_eq!(text(&buf), "579");
    assert_eq!(depth, 1);
    assert_eq!(src.at, 5);
}

#[test]
fn int_of_one_digit_is_never_zero_led() {
    let mut src = Replay::new(vec![1, 9, 0, 5]);
    let (mut depth, mut buf) = (0, Vec::new());
    emit_int(&mut src, limits(), &mut depth, &mut buf);
    assert_eq!(text(&buf), "1");
    assert_eq!(src.at, 3);
}

#[test]
fn int_has_fewer_digits_after_the_first_than_the_bound() {
    let mut draws = vec![1, 8, 15];
    draws.extend(std::iter::repeat(3).take(20));
    let mut src = Replay::new(draws);
    let (mut depth, mut buf) = (0, Vec::new());
    emit_int(&mut src, limits(), &mut depth, &mut buf);
    assert_eq!(text(&buf), "9333333333333333");
    assert_eq!(buf.len(), 16);
}

#[test]
fn int_appends_to_what_is_there() {
    let mut src = Replay::new(vec![0]);
    let (mut depth, mut buf) = (5, b"x=".to_vec());
    emit_int(&mut src, limits(), &mut depth, &mut buf);
    assert_eq!(text(&buf), "x=0");
    assert_eq!(depth, 6);
}

#[test]
fn exp_with_sign() {
    let mut src = Replay::new(vec![0, 1, 1, 0, 9]);
    let (mut depth, mut buf) = (0, Vec::new());
    emit_exp(&mut src, limits(), &mut depth, &mut buf);
    assert_eq!(text(&buf), "e-0");
    assert_eq!(depth, 2);
    assert_eq!(src.at, 4);
}

#[test]
fn exp_with_plus() {
    let mut src = Replay::new(vec![1, 1, 0, 1, 0, 0, 9]);
    let (mut depth, mut buf) = (0, Vec::new());
    emit_exp(&mut src, limits(), &mut depth, &mut buf);
    assert_eq!(text(&buf), "E+1");
}

#[test]
fn exp_without_sign() {
    let mut src = Replay::new(vec![1, 0, 1, 7, 1, 5, 9]);
    let (mut depth, mut buf) = (0, Vec::new());
    emit_exp(&mut src, limits(), &mut depth, &mut buf);
    assert_eq!(text(&buf), "E85");
    assert_eq!(src.at, 6);
}

#[test]
fn number_with_all_parts() {
    // minus; int 0; fraction .5 and 2 digits 3 4; exponent e, no sign, int 0
    let mut src = Replay::new(vec![1, 0, 1, 5, 2, 3, 4, 1, 0, 0, 0, 77]);
    let (mut depth, mut buf) = (0, Vec::new());
    emit_number(&mut src, limits(), &mut depth, &mut buf);
    assert_eq!(text(&buf), "-0.534e0");
    assert_eq!(depth, 4);
    assert_eq!(src.at, 11);
}

#[test]
fn number_that_is_an_int() {
    let mut src = Replay::new(vec![0, 0, 0, 0, 77]);
    let (mut depth, mut buf) = (0, Vec::new());
    emit_number(&mut src, limits(), &mut depth, &mut buf);
    assert_eq!(text(&buf), "0");
    assert_eq!(depth, 2);
    assert_eq!(src.at, 4);
}

#[test]
fn number_with_fraction_of_one_digit() {
    let mut src = Replay::new(vec![0, 1, 1, 0, 1, 8, 0, 0, 77]);
    let (mut depth, mut buf) = (0, Vec::new());
    emit_number(&mut src, limits(), &mut depth, &mut buf);
    assert_eq!(text(&buf), "2.8");
    assert_eq!(depth, 2);
}

#[test]
fn hex_digits_in_both_cases() {
    let expect = "0123456789abcdefABCDEF";
    for i in 0..22 {
        let mut src = Replay::new(vec![i + 22 * 5]);
        let (mut depth, mut buf) = (0, Vec::new());
        emit_hex(&mut src, &mut depth, &mut buf);
        assert_eq!(text(&buf), expect[i..i + 1]);
        assert_eq!(depth, 1);
    }
}

#[test]
fn unicode_is_u_and_four_hex() {
    let mut src = Replay::new(vec![0, 10, 16, 21, 5]);
    let (mut depth, mut buf) = (0, Vec::new());
    emit_unicode(&mut src, &mut depth, &mut buf);
    assert_eq!(text(&buf), "u0aAF");
    assert_eq!(depth, 5);
    assert_eq!(src.at, 4);
}

#[test]
fn escape_short_letters() {
    let expect = ["\\\"", "\\\\", "\\/", "\\b", "\\f", "\\n", "\\r", "\\t"];
    for i in 0..8 {
        let mut src = Replay::new(vec![1, i + 8, 99]);
        let (mut depth, mut buf) = (0, Vec::new());
        emit_escape(&mut src, &mut depth, &mut buf);
        assert_eq!(text(&buf), expect[i]);
        assert_eq!(depth, 1);
        assert_eq!(src.at, 2);
    }
}

#[test]
fn escape_unicode() {
    let mut src = Replay::new(vec![0, 1, 2, 3, 4, 99]);
    let (mut depth, mut buf) = (0, Vec::new());
    emit_escape(&mut src, &mut depth, &mut buf);
    assert_eq!(text(&buf), "\\u1234");
    assert_eq!(depth, 6);
    assert_eq!(src.at, 5);
}

#[test]
fn push_scalar_of_each_width() {
    for c in ['A', ' ', '\u{7f}', '\u{80}', 'é', '\u{7ff}', '\u{800}', '€', '\u{ffff}',
        '\u{10000}', '😀', '\u{10ffff}', '\u{d7ff}', '\u{e000}']
    {
        let mut buf = vec![b'<'];
        push_scalar(c as u32, &mut buf);
        let mut expect = String::from("<");
        expect.push(c);
        assert_eq!(buf, expect.into_bytes());
    }
}

#[test]
fn safe_code_point_takes_the_first_acceptable() {
    let mut src = Replay::new(vec![0x41, 0x42]);
    let (mut depth, mut buf) = (0, Vec::new());
    emit_safe_code_point(&mut src, &mut depth, &mut buf);
    assert_eq!(text(&buf), "A");
    assert_eq!(depth, 1);
    assert_eq!(src.at, 1);
}

#[test]
fn safe_code_point_rejects_controls_quote_backslash_and_surrogates() {
    let mut src = Replay::new(vec![0x05, 0x1f, 0x22, 0x5c, 0xd800, 0xdfff, 0x00, 0xe9, 0x41]);
    let (mut depth, mut buf) = (0, Vec::new());
    emit_safe_code_point(&mut src, &mut depth, &mut buf);
    assert_eq!(text(&buf), "é");
    assert_eq!(buf, vec![0xc3, 0xa9]);
    assert_eq!(depth, 1);
    assert_eq!(src.at, 8);
}

#[test]
fn safe_code_point_wraps_the_draw_into_the_candidates() {
    let mut src = Replay::new(vec![0x10ffff + 0x20ac, 7]);
    let (mut depth, mut buf) = (0, Vec::new());
    emit_safe_code_point(&mut src, &mut depth, &mut buf);
    assert_eq!(text(&buf), "€");
    assert_eq!(buf, vec![0xe2, 0x82, 0xac]);
}

#[test]
fn safe_code_point_of_four_bytes() {
    let mut src = Replay::new(vec![0x1f600, 7]);
    let (mut depth, mut buf) = (0, Vec::new());
    emit_safe_code_point(&mut src, &mut depth, &mut buf);
    assert_eq!(text(&buf), "😀");
    assert_eq!(buf, vec![0xf0, 0x9f, 0x98, 0x80]);
}

#[test]
fn safe_code_point_takes_the_edges_of_the_accepted_range() {
    for (draw, c) in [(0x20usize, ' '), (0x21, '!'), (0x23, '#'), (0x5b, '['), (0x5d, ']'),
        (0xd7ff, '\u{d7ff}'), (0xe000, '\u{e000}'), (0x10fffe, '\u{10fffe}')]
    {
        let mut src = Replay::new(vec![draw, 0x41]);
        let (mut depth, mut buf) = (0, Vec::new());
        emit_safe_code_point(&mut src, &mut depth, &mut buf);
        assert_eq!(text(&buf), c.to_string());
        assert_eq!(src.at, 1);
    }
}

#[test]
fn safe_code_point_falls_back_to_a_space_after_64_rejections() {
    let mut draws = vec![0usize; 64];
    draws.push(0x41);
    draws.push(0x42);
    let mut src = Replay::new(draws);
    let (mut depth, mut buf) = (0, Vec::new());
    emit_safe_code_point(&mut src, &mut depth, &mut buf);
    assert_eq!(text(&buf), " ");
    assert_eq!(depth, 1);
    assert_eq!(src.at, 64);
}

#[test]
fn safe_code_point_takes_the_64th_candidate() {
    let mut draws = vec![0usize; 63];
    draws.push(0x41);
    draws.push(0x42);
    let mut src = Replay::new(draws);
    let (mut depth, mut buf) = (0, Vec::new());
    emit_safe_code_point(&mut src, &mut depth, &mut buf);
    assert_eq!(text(&buf), "A");
    assert_eq!(src.at, 64);
}

#[test]
fn safe_code_point_ends_on_a_source_of_zeros() {
    let mut rng = Rng::new(0);
    let (mut depth, mut buf) = (0, Vec::new());
    emit_safe_code_point(&mut rng, &mut depth, &mut buf);
    assert_eq!(text(&buf), " ");
}

#[test]
fn string_of_two_units() {
    // 2 units; an escape, short, 't'; a code point 'A'
    let mut src = Replay::new(vec![2, 0, 1, 7, 1, 0x41, 99]);
    let (mut depth, mut buf) = (0, Vec::new());
    emit_string(&mut src, limits(), &mut depth, &mut buf);
    assert_eq!(text(&buf), "\"\\tA\"");
    assert_eq!(depth, 3);
    assert_eq!(src.at, 6);
}

#[test]
fn string_may_be_empty() {
    let mut src = Replay::new(vec![16, 99]);
    let (mut depth, mut buf) = (0, Vec::new());
    emit_string(&mut src, limits(), &mut depth, &mut buf);
    assert_eq!(text(&buf), "\"\"");
    assert_eq!(depth, 1);
    assert_eq!(src.at, 1);
}

#[test]
fn string_at_the_cap_still_has_units() {
    let mut src = Replay::new(vec![1, 1, 0x41, 99]);
    let (mut depth, mut buf) = (127, Vec::new());
    emit_string(&mut src, limits(), &mut depth, &mut buf);
    assert_eq!(text(&buf), "\"A\"");
    assert_eq!(depth, 129);
}

#[test]
fn string_past_the_cap_is_empty_and_draws_nothing() {
    let mut src = Replay::new(vec![5, 1, 0x41, 99]);
    let (mut depth, mut buf) = (128, Vec::new());
    emit_string(&mut src, limits(), &mut depth, &mut buf);
    assert_eq!(text(&buf), "\"\"");
    assert_eq!(depth, 129);
    assert_eq!(src.at, 0);
}

#[test]
fn value_literals() {
    for (bucket, expect) in [(98usize, "true"), (99, "false"), (100, "null"), (98 + 101, "true")] {
        let mut src = Replay::new(vec![bucket, 5]);
        let (mut depth, mut buf) = (0, Vec::new());
        emit_value(&mut src, limits(), &mut depth, &mut buf);
        assert_eq!(text(&buf), expect);
        assert_eq!(depth, 1);
        assert_eq!(src.at, 1);
    }
}

#[test]
fn value_buckets_start_where_they_should() {
    // the draws after the bucket give: an empty string; the number 0; {} ; []
    for (bucket, expect) in [(0usize, "\"\""), (14, "\"\""), (15, "0"), (29, "0"), (30, "{}"),
        (59, "{}"), (60, "[]"), (97, "[]")]
    {
        let mut src = Replay::new(vec![bucket, 0, 0, 0, 0, 0]);
        let (mut depth, mut buf) = (0, Vec::new());
        emit_value(&mut src, limits(), &mut depth, &mut buf);
        assert_eq!(text(&buf), expect, "bucket {}", bucket);
    }
}

#[test]
fn value_at_the_cap_is_a_number() {
    let mut src = Replay::new(vec![0, 1, 3, 0, 0, 0, 77]);
    let (mut depth, mut buf) = (127, Vec::new());
    emit_value(&mut src, limits(), &mut depth, &mut buf);
    assert_eq!(text(&buf), "4");
    assert_eq!(depth, 130);
}

#[test]
fn value_one_below_the_cap_draws_a_bucket() {
    let mut src = Replay::new(vec![98, 77]);
    let (mut depth, mut buf) = (126, Vec::new());
    emit_value(&mut src, limits(), &mut depth, &mut buf);
    assert_eq!(text(&buf), "true");
    assert_eq!(depth, 127);
}

#[test]
fn value_with_depth_cap_one_is_always_a_number() {
    let one = Limits::new(1, 16).unwrap();
    for seed in 0..200u64 {
        let mut rng = Rng::new(seed);
        let (mut depth, mut buf) = (0, Vec::new());
        emit_value(&mut rng, one, &mut depth, &mut buf);
        assert!(!buf.is_empty());
        assert!(buf.iter().all(|b| b.is_ascii_digit() || b"+-.eE".contains(b)), "{:?}", buf);
        assert!(depth >= 3 && depth <= 5);
    }
}

#[test]
fn value_with_depth_cap_one_ignores_the_bucket() {
    let one = Limits::new(1, 16).unwrap();
    for bucket in [0usize, 30, 60, 98, 100] {
        // read as a number: the first draw decides the sign, and is even
        let mut src = Replay::new(vec![bucket, 0, 0, 0, 77]);
        let (mut depth, mut buf) = (0, Vec::new());
        emit_value(&mut src, one, &mut depth, &mut buf);
        assert_eq!(text(&buf), "0");
        assert_eq!(depth, 3);
    }
}

#[test]
fn pair_is_string_colon_value() {
    let mut src = Replay::new(vec![1, 1, 0x6b, 99, 77]);
    let (mut depth, mut buf) = (0, Vec::new());
    emit_pair(&mut src, limits(), &mut depth, &mut buf);
    assert_eq!(text(&buf), "\"k\":false");
    assert_eq!(depth, 4);
}

#[test]
fn array_empty() {
    let mut src = Replay::new(vec![10, 77]);
    let (mut depth, mut buf) = (0, Vec::new());
    emit_array(&mut src, limits(), &mut depth, &mut buf);
    assert_eq!(text(&buf), "[]");
    assert_eq!(depth, 1);
    assert_eq!(src.at, 1);
}

#[test]
fn array_of_three() {
    let mut src = Replay::new(vec![1, 98, 2, 99, 100, 77]);
    let (mut depth, mut buf) = (0, Vec::new());
    emit_array(&mut src, limits(), &mut depth, &mut buf);
    assert_eq!(text(&buf), "[true,false,null]");
    assert_eq!(depth, 4);
    assert_eq!(src.at, 5);
}

#[test]
fn array_of_one() {
    let mut src = Replay::new(vec![1, 98, 16, 77]);
    let (mut depth, mut buf) = (0, Vec::new());
    emit_array(&mut src, limits(), &mut depth, &mut buf);
    assert_eq!(text(&buf), "[true]");
    assert_eq!(src.at, 3);
}

#[test]
fn array_past_the_cap_has_one_value_and_closes() {
    // entered at the cap: the value is a number, and no count is drawn
    let mut src = Replay::new(vec![1, 0, 0, 0, 0, 5, 5]);
    let (mut depth, mut buf) = (128, Vec::new());
    emit_array(&mut src, limits(), &mut depth, &mut buf);
    assert_eq!(text(&buf), "[0]");
    assert_eq!(src.at, 5);
    assert_eq!(depth, 132);
}

#[test]
fn array_whose_first_value_passes_the_cap_has_no_more() {
    // entered at 126, the first value is a number, which leaves the counter
    // at 130: no count is drawn
    let mut src = Replay::new(vec![1, 0, 0, 0, 0, 2, 98, 99]);
    let (mut depth, mut buf) = (126, Vec::new());
    emit_array(&mut src, limits(), &mut depth, &mut buf);
    assert_eq!(text(&buf), "[0]");
    assert_eq!(depth, 130);
}

#[test]
fn nested_arrays() {
    // [ [ ] , [ true ] ]
    let mut src = Replay::new(vec![1, 60, 0, 1, 60, 1, 98, 0, 77]);
    let (mut depth, mut buf) = (0, Vec::new());
    emit_array(&mut src, limits(), &mut depth, &mut buf);
    assert_eq!(text(&buf), "[[],[true]]");
}

#[test]
fn object_empty() {
    let mut src = Replay::new(vec![20, 77]);
    let (mut depth, mut buf) = (0, Vec::new());
    emit_object(&mut src, limits(), &mut depth, &mut buf);
    assert_eq!(text(&buf), "{}");
    assert_eq!(depth, 1);
}

#[test]
fn object_of_two_pairs() {
    let mut src = Replay::new(vec![1, 0, 98, 1, 1, 1, 0x61, 100, 77]);
    let (mut depth, mut buf) = (0, Vec::new());
    emit_object(&mut src, limits(), &mut depth, &mut buf);
    assert_eq!(text(&buf), "{\"\":true,\"a\":null}");
    assert_eq!(src.at, 8);
}

#[test]
fn json_is_a_value_one_deeper() {
    let mut src = Replay::new(vec![100, 77]);
    let (mut depth, mut buf) = (0, Vec::new());
    emit_json(&mut src, limits(), &mut depth, &mut buf);
    assert_eq!(text(&buf), "null");
    assert_eq!(depth, 2);
}

#[test]
fn json_at_the_cap_is_a_number() {
    let mut src = Replay::new(vec![0, 0, 0, 0, 77]);
    let (mut depth, mut buf) = (126, Vec::new());
    emit_json(&mut src, limits(), &mut depth, &mut buf);
    assert_eq!(text(&buf), "0");
}

#[test]
fn counter_at_the_top_stays_there() {
    let mut src = Replay::new(vec![100, 77]);
    let (mut depth, mut buf) = (u64::MAX, Vec::new());
    emit_json(&mut src, limits(), &mut depth, &mut buf);
    assert_eq!(depth, u64::MAX);
    assert!(buf.iter().all(|b| b.is_ascii_digit() || b"+-.eE".contains(b)));
}

#[test]
fn a_source_of_zeros_ends() {
    let mut src = Replay::new(vec![]);
    let (mut depth, mut buf) = (0, Vec::new());
    emit_json(&mut src, limits(), &mut depth, &mut buf);
    assert_eq!(text(&buf), "\"\"");
}

#[test]
fn a_source_that_always_nests_ends() {
    // every draw is bucket 60 of 101: an array, never empty, with one
    // further value
    let small = Limits::new(6, 3).unwrap();
    let mut src = Replay::new(vec![60 + 101 * 10 * 3 + 101 * 2]);
    let (mut depth, mut buf) = (0, Vec::new());
    emit_json(&mut src, small, &mut depth, &mut buf);
    assert_eq!(buf.first(), Some(&b'['));
    assert_eq!(buf.last(), Some(&b']'));
    assert!(depth > 6);
}

#[test]
fn equal_seeds_give_equal_values() {
    for seed in [0u64, 1, 2, 99, 123456789, u64::MAX] {
        let (mut a, mut b) = (Rng::new(seed), Rng::new(seed));
        for _ in 0..20 {
            let (mut da, mut db) = (0, 0);
            let (mut ba, mut bb) = (Vec::new(), Vec::new());
            emit_value(&mut a, limits(), &mut da, &mut ba);
            emit_value(&mut b, limits(), &mut db, &mut bb);
            assert_eq!(ba, bb);
            assert_eq!(da, db);
        }
    }
}

#[test]
fn equal_seeds_give_equal_values_under_other_limits() {
    let small = Limits::new(4, 5).unwrap();
    let (mut a, mut b) = (Rng::new(31337), Rng::new(31337));
    for _ in 0..50 {
        let (mut da, mut db) = (0, 0);
        let (mut ba, mut bb) = (Vec::new(), Vec::new());
        emit_value(&mut a, small, &mut da, &mut ba);
        emit_value(&mut b, small, &mut db, &mut bb);
        assert_eq!(ba, bb);
    }
}
