use jsongen::engine::{emit_array, emit_int, emit_json, emit_object, emit_safe_code_point};
use jsongen::model::Limits;
use jsongen::rng::Rng;

/// Reads `text` as the grammar's brackets and strings; true when every
/// closing bracket closes the innermost open one and nothing is left open.
fn brackets_balance(text: &[u8]) -> bool {
    let mut open: Vec<u8> = Vec::new();
    let (mut in_string, mut escaped) = (false, false);
    for &b in text {
        if in_string {
            if escaped {
                escaped = false;
            } else if b == b'\\' {
                escaped = true;
            } else if b == b'"' {
                in_string = false;
            }
        } else if b == b'"' {
            in_string = true;
        } else if b == b'[' || b == b'{' {
            open.push(b);
        } else if b == b']' {
            if open.pop() != Some(b'[') {
                return false;
            }
        } else if b == b'}' {
            if open.pop() != Some(b'{') {
                return false;
            }
        }
    }
    open.is_empty() && !in_string
}

#[test]
fn the_reading_of_brackets_tells_balanced_from_unbalanced() {
    assert!(brackets_balance(b"[]"));
    assert!(brackets_balance(b"[{\"a]\":[1,\"\\\"}\"]}]"));
    assert!(!brackets_balance(b"[}"));
    assert!(!brackets_balance(b"[["));
    assert!(!brackets_balance(b"]"));
    assert!(!brackets_balance(b"[\"]"));
}

#[test]
fn ints_start_with_zero_only_when_zero() {
    for seed in 0..2000u64 {
        let mut rng = Rng::new(seed);
        let (mut depth, mut buf) = (0, Vec::new());
        emit_int(&mut rng, Limits::standard(), &mut depth, &mut buf);
        assert!(!buf.is_empty());
        assert!(buf.len() <= 16);
        assert!(buf.iter().all(|b| b.is_ascii_digit()));
        if buf[0] == b'0' {
            assert_eq!(buf, b"0");
        }
        assert_eq!(depth, 1);
    }
}

#[test]
fn safe_code_points_are_no_controls_quotes_or_backslashes() {
    let mut rng = Rng::new(2024);
    for _ in 0..20000 {
        let (mut depth, mut buf) = (0, Vec::new());
        emit_safe_code_point(&mut rng, &mut depth, &mut buf);
        let s = String::from_utf8(buf).unwrap();
        let mut chars = s.chars();
        let c = chars.next().unwrap();
        assert!(chars.next().is_none());
        assert!(c as u32 >= 0x20);
        assert_ne!(c, '"');
        assert_ne!(c, '\\');
        assert!((c as u32) < 0x10ffff);
    }
}

#[test]
fn arrays_have_balanced_brackets() {
    for seed in 0..300u64 {
        let mut rng = Rng::new(seed);
        let (mut depth, mut buf) = (0, Vec::new());
        emit_array(&mut rng, Limits::new(24, 6).unwrap(), &mut depth, &mut buf);
        assert_eq!(buf.first(), Some(&b'['));
        assert_eq!(buf.last(), Some(&b']'));
        assert!(brackets_balance(&buf));
    }
}

#[test]
fn objects_have_balanced_brackets() {
    for seed in 0..300u64 {
        let mut rng = Rng::new(seed + 10_000);
        let (mut depth, mut buf) = (0, Vec::new());
        emit_object(&mut rng, Limits::new(24, 6).unwrap(), &mut depth, &mut buf);
        assert_eq!(buf.first(), Some(&b'{'));
        assert_eq!(buf.last(), Some(&b'}'));
        assert!(brackets_balance(&buf));
    }
}

#[test]
fn whole_texts_are_balanced_and_valid_utf8() {
    for seed in 0..300u64 {
        let mut rng = Rng::new(seed + 77_000);
        let (mut depth, mut buf) = (0, Vec::new());
        emit_json(&mut rng, Limits::new(16, 4).unwrap(), &mut depth, &mut buf);
        assert!(brackets_balance(&buf));
        assert!(String::from_utf8(buf).is_ok());
        assert!(depth >= 2);
    }
}

#[test]
fn whole_texts_under_the_standard_limits_end() {
    let mut rng = Rng::new(4242);
    for _ in 0..20 {
        let (mut depth, mut buf) = (0, Vec::new());
        emit_json(&mut rng, Limits::standard(), &mut depth, &mut buf);
        assert!(!buf.is_empty());
        assert!(brackets_balance(&buf));
    }
}

#[test]
fn the_counter_stays_below_its_bound() {
    // 1 + 3105 * 127 + 97 symbols at most, under the standard limits
    let mut rng = Rng::new(99);
    for _ in 0..50 {
        let (mut depth, mut buf) = (0, Vec::new());
        emit_json(&mut rng, Limits::standard(), &mut depth, &mut buf);
        assert!(depth >= 2);
        assert!(depth <= 394_433);
    }
}

#[test]
fn a_source_that_always_nests_stays_below_the_bound() {
    // with 3 as the repeat bound a pair enters at most 1 + 18 + 19 = 38
    // symbols and an object 1 + 3 * 38 = 115; a whole text from depth
    // zero at most 1 + 115 * 5 + 19
    let small = Limits::new(6, 3).unwrap();
    for draw in [60usize + 101 * 32, 30 + 101 * 32, 61 + 101 * 7] {
        let mut src = jsongen::source::Replay::new(vec![draw]);
        let (mut depth, mut buf) = (0, Vec::new());
        emit_json(&mut src, small, &mut depth, &mut buf);
        assert!(depth <= 1 + 115 * 5 + 19, "{}", depth);
        assert!(brackets_balance(&buf));
    }
}
