use jsongen::json;
use jsongen::json2;
use jsongen::json3;
use jsongen::json4;
use jsongen::rng::Rng;
use jsongen::text::{into_text, text_of};
use jsongen::Generate;

#[test]
fn text_of_valid_bytes() {
    assert_eq!(text_of(b"[\"a\"]".to_vec()), Some(String::from("[\"a\"]")));
    assert_eq!(text_of(vec![0xe2, 0x82, 0xac]), Some(String::from("€")));
    assert_eq!(text_of(vec![]), Some(String::new()));
}

#[test]
fn text_of_invalid_bytes_is_none() {
    assert_eq!(text_of(vec![0xff]), None);
    assert_eq!(text_of(vec![0xe2, 0x82]), None);
    assert_eq!(text_of(vec![0xed, 0xa0, 0x80]), None);
    assert_eq!(text_of(vec![0xc0, 0x80]), None);
}

#[test]
fn into_text_decodes() {
    assert_eq!(into_text(vec![0x22, 0xc3, 0xa9, 0x22]), "\"é\"");
}

#[test]
fn buffer_symbols_append_and_count() {
    let mut rng = Rng::new(3);
    let (mut depth, mut buf) = (0u64, b"> ".to_vec());
    json4::Hex::generate(&mut rng, &mut depth, &mut buf);
    assert_eq!(buf.len(), 3);
    assert!(buf[2].is_ascii_hexdigit());
    assert_eq!(depth, 1);
    json4::Unicode::generate(&mut rng, &mut depth, &mut buf);
    assert_eq!(buf.len(), 8);
    assert_eq!(buf[3], b'u');
    assert_eq!(depth, 6);
}

#[test]
fn buffer_symbols_give_their_own_texts() {
    let mut rng = Rng::new(11);
    for _ in 0..50 {
        let (mut depth, mut buf) = (0u64, Vec::new());
        json4::Int::generate(&mut rng, &mut depth, &mut buf);
        assert!(buf.iter().all(|b| b.is_ascii_digit()));
        buf.clear();
        json4::Exp::generate(&mut rng, &mut depth, &mut buf);
        assert!(buf[0] == b'e' || buf[0] == b'E');
        buf.clear();
        json4::Number::generate(&mut rng, &mut depth, &mut buf);
        assert!(buf.iter().all(|b| b.is_ascii_digit() || b"+-.eE".contains(b)));
        buf.clear();
        json4::Escape::generate(&mut rng, &mut depth, &mut buf);
        assert_eq!(buf[0], b'\\');
        assert!(buf.len() == 2 || buf.len() == 6);
        buf.clear();
        json4::SafeCodePoint::generate(&mut rng, &mut depth, &mut buf);
        assert_eq!(String::from_utf8(buf.clone()).unwrap().chars().count(), 1);
        buf.clear();
        depth = 0;
        json4::JsonString::generate(&mut rng, &mut depth, &mut buf);
        assert_eq!(buf.first(), Some(&b'"'));
        assert_eq!(buf.last(), Some(&b'"'));
        assert!(buf.len() >= 2);
        buf.clear();
        depth = 0;
        json4::JsonPair::generate(&mut rng, &mut depth, &mut buf);
        assert_eq!(buf.first(), Some(&b'"'));
        buf.clear();
        depth = 0;
        json4::JsonArray::generate(&mut rng, &mut depth, &mut buf);
        assert_eq!((buf.first(), buf.last()), (Some(&b'['), Some(&b']')));
        buf.clear();
        depth = 0;
        json4::JsonObject::generate(&mut rng, &mut depth, &mut buf);
        assert_eq!((buf.first(), buf.last()), (Some(&b'{'), Some(&b'}')));
        buf.clear();
        depth = 0;
        json4::JsonValue::generate(&mut rng, &mut depth, &mut buf);
        assert!(!buf.is_empty());
        buf.clear();
        depth = 0;
        json4::Json::generate(&mut rng, &mut depth, &mut buf);
        assert!(!buf.is_empty());
        assert!(depth >= 2);
    }
}

#[test]
fn buffer_value_past_the_cap_is_a_number() {
    let mut rng = Rng::new(5);
    for _ in 0..100 {
        let (mut depth, mut buf) = (127u64, Vec::new());
        json4::JsonValue::generate(&mut rng, &mut depth, &mut buf);
        assert!(buf.iter().all(|b| b.is_ascii_digit() || b"+-.eE".contains(b)));
    }
}

#[test]
fn string_symbols_agree_with_buffer_symbols() {
    for seed in 0..40u64 {
        let (mut a, mut b, mut c) = (Rng::new(seed), Rng::new(seed), Rng::new(seed));
        let (mut da, mut db, mut dc) = (0u64, 0u64, 0u64);
        let mut buf = Vec::new();
        json4::Json::generate(&mut a, &mut da, &mut buf);
        let s3 = json3::Json::generate(&mut b, &mut db);
        let s2 = json2::Json::generate(&mut c, &mut dc);
        assert_eq!(s3.as_bytes(), &buf[..]);
        assert_eq!(s2, s3);
        assert_eq!((da, da), (db, dc));
        assert_eq!(a.next(), b.next());
    }
}

#[test]
fn each_string_symbol_agrees_with_its_buffer_symbol() {
    let (mut a, mut b, mut c) = (Rng::new(8), Rng::new(8), Rng::new(8));
    let (mut da, mut db, mut dc) = (0u64, 0u64, 0u64);
    let mut buf = Vec::new();
    let mut s3 = String::new();
    let mut s2 = String::new();
    for _ in 0..10 {
        json4::Exp::generate(&mut a, &mut da, &mut buf);
        s3.push_str(&json3::Exp::generate(&mut b, &mut db));
        s2.push_str(&json2::Exp::generate(&mut c, &mut dc));
        json4::Int::generate(&mut a, &mut da, &mut buf);
        s3.push_str(&json3::Int::generate(&mut b, &mut db));
        s2.push_str(&json2::Int::generate(&mut c, &mut dc));
        json4::Number::generate(&mut a, &mut da, &mut buf);
        s3.push_str(&json3::Number::generate(&mut b, &mut db));
        s2.push_str(&json2::Number::generate(&mut c, &mut dc));
        json4::Hex::generate(&mut a, &mut da, &mut buf);
        s3.push_str(&json3::Hex::generate(&mut b, &mut db));
        s2.push_str(&json2::Hex::generate(&mut c, &mut dc));
        json4::Unicode::generate(&mut a, &mut da, &mut buf);
        s3.push_str(&json3::Unicode::generate(&mut b, &mut db));
        s2.push_str(&json2::Unicode::generate(&mut c, &mut dc));
        json4::SafeCodePoint::generate(&mut a, &mut da, &mut buf);
        s3.push_str(&json3::SafeCodePoint::generate(&mut b, &mut db));
        s2.push_str(&json2::SafeCodePoint::generate(&mut c, &mut dc));
        json4::Escape::generate(&mut a, &mut da, &mut buf);
        s3.push_str(&json3::Escape::generate(&mut b, &mut db));
        s2.push_str(&json2::Escape::generate(&mut c, &mut dc));
        da = 0;
        db = 0;
        dc = 0;
        json4::JsonString::generate(&mut a, &mut da, &mut buf);
        s3.push_str(&json3::JsonString::generate(&mut b, &mut db));
        s2.push_str(&json2::JsonString::generate(&mut c, &mut dc));
        json4::JsonPair::generate(&mut a, &mut da, &mut buf);
        s3.push_str(&json3::JsonPair::generate(&mut b, &mut db));
        s2.push_str(&json2::JsonPair::generate(&mut c, &mut dc));
        da = 0;
        db = 0;
        dc = 0;
        json4::JsonArray::generate(&mut a, &mut da, &mut buf);
        s3.push_str(&json3::JsonArray::generate(&mut b, &mut db));
        s2.push_str(&json2::JsonArray::generate(&mut c, &mut dc));
        da = 0;
        db = 0;
        dc = 0;
        json4::JsonObject::generate(&mut a, &mut da, &mut buf);
        s3.push_str(&json3::JsonObject::generate(&mut b, &mut db));
        s2.push_str(&json2::JsonObject::generate(&mut c, &mut dc));
        da = 0;
        db = 0;
        dc = 0;
        json4::JsonValue::generate(&mut a, &mut da, &mut buf);
        s3.push_str(&json3::JsonValue::generate(&mut b, &mut db));
        s2.push_str(&json2::JsonValue::generate(&mut c, &mut dc));
        assert_eq!((da, da), (db, dc));
        da = 0;
        db = 0;
        dc = 0;
    }
    assert_eq!(s3.as_bytes(), &buf[..]);
    assert_eq!(s2, s3);
}

#[test]
fn value_symbols_hold_their_text() {
    let mut seed = json::Xorshift { seed: 0x9e3779b97f4a7c15 };
    let mut count = 0u64;
    for _ in 0..30 {
        let int = json::Int::generate(&mut seed, &mut count);
        assert!(int.value.bytes().all(|b| b.is_ascii_digit()));
        let exp = json::Exp::generate(&mut seed, &mut count);
        assert!(exp.value.starts_with('e') || exp.value.starts_with('E'));
        assert_eq!(exp.to_string(), exp.value);
        let number = json::Number::generate(&mut seed, &mut count);
        assert!(number.value.bytes().all(|b| b.is_ascii_digit() || b"+-.eE".contains(&b)));
        let hex = json::Hex::generate(&mut seed, &mut count);
        assert_eq!(hex.value.len(), 1);
        let unicode = json::Unicode::generate(&mut seed, &mut count);
        assert_eq!(unicode.value.len(), 5);
        let safe = json::SafeCodePoint::generate(&mut seed, &mut count);
        assert_eq!(safe.value.chars().count(), 1);
        let escape = json::Escape::generate(&mut seed, &mut count);
        assert!(escape.value.starts_with('\\'));
        count = 0;
        let string = json::JsonString::generate(&mut seed, &mut count);
        assert!(string.value.starts_with('"') && string.value.ends_with('"'));
        count = 0;
        let pair = json::JsonPair::generate(&mut seed, &mut count);
        assert!(pair.value.starts_with('"'));
        count = 0;
        let array = json::JsonArray::generate(&mut seed, &mut count);
        assert!(array.value.starts_with('[') && array.value.ends_with(']'));
        count = 0;
        let object = json::JsonObject::generate(&mut seed, &mut count);
        assert!(object.value.starts_with('{') && object.value.ends_with('}'));
        count = 0;
        let value = json::JsonValue::generate(&mut seed, &mut count);
        assert!(!value.value.is_empty());
        count = 0;
        let whole = json::Json::generate(&mut seed, &mut count);
        assert!(!whole.value.is_empty());
        assert!(count >= 2);
        count = 0;
    }
}

#[test]
fn value_symbols_are_a_function_of_the_seed() {
    let mut a = json::Xorshift { seed: 77 };
    let mut b = json::Xorshift { seed: 77 };
    for _ in 0..20 {
        let (mut ca, mut cb) = (0u64, 0u64);
        let x = json::Json::generate(&mut a, &mut ca);
        let y = json::Json::generate(&mut b, &mut cb);
        assert_eq!(x.value, y.value);
        assert_eq!(ca, cb);
        assert_eq!(a.seed, b.seed);
    }
}

#[test]
fn value_int_from_a_known_seed() {
    // the first number after seed 1 is odd, so the integer is not 0; the
    // second gives the leading digit, the third the count of further digits
    let mut seed = json::Xorshift { seed: 1 };
    let mut count = 0u64;
    let int = json::Int::generate(&mut seed, &mut count);
    let lead = (b'1' + (4503599627371009u64 % 9) as u8) as char;
    assert!(int.value.starts_with(lead));
    assert_eq!(int.value.len(), 1 + (72347899471602209u64 % 16) as usize);
    assert_eq!(count, 1);
}
