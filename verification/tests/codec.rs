use ergo_orders::parsing::{string_codec_round_trip, u64_codec_round_trip};
use ergo_orders::{constant_to_string, constant_to_u64, string_to_constant, u64_to_constant, Constant};

#[test]
fn string_round_trip_empty() {
    assert_eq!(string_codec_round_trip(String::new()), Some(String::new()));
}

#[test]
fn string_round_trip_ascii() {
    let s = "9hDPCYffeTEAcShngRGNMJsWYUyFC2qkTybrLJHbxcfh7vDMg6h".to_string();
    assert_eq!(string_codec_round_trip(s.clone()), Some(s));
}

#[test]
fn string_round_trip_multibyte() {
    let s = "\u{03ba}\u{03cc}\u{03c3}\u{03bc}\u{03b5}".to_string();
    assert_eq!(string_codec_round_trip(s.clone()), Some(s));
}

#[test]
fn u64_round_trip_zero() {
    assert_eq!(u64_codec_round_trip(0), Some(0));
}

#[test]
fn u64_round_trip_max() {
    assert_eq!(u64_codec_round_trip(u64::MAX), Some(u64::MAX));
}

#[test]
fn u64_round_trip_ordinary() {
    assert_eq!(u64_codec_round_trip(500_000), Some(500_000));
}

#[test]
fn string_encoding_is_utf8_bytes() {
    let c = string_to_constant("ab".to_string());
    assert_eq!(c, Constant::ByteColl(vec![97, 98]));
}

#[test]
fn u64_encoding_reinterprets_bits() {
    assert_eq!(u64_to_constant(u64::MAX), Constant::Long(-1));
    assert_eq!(u64_to_constant(7), Constant::Long(7));
}

#[test]
fn decode_rejects_invalid_utf8() {
    assert_eq!(constant_to_string(&Constant::ByteColl(vec![0xff, 0xfe])), None);
}

#[test]
fn decode_rejects_wrong_constant_type() {
    assert_eq!(constant_to_string(&Constant::Long(5)), None);
    assert_eq!(constant_to_u64(&Constant::ByteColl(vec![1])), None);
}

#[test]
fn decode_long_reinterprets_bits() {
    assert_eq!(constant_to_u64(&Constant::Long(-1)), Some(u64::MAX));
    assert_eq!(constant_to_u64(&Constant::Long(42)), Some(42));
}

#[test]
fn decode_encoded_string() {
    let c = string_to_constant("hello world".to_string());
    assert_eq!(constant_to_string(&c), Some("hello world".to_string()));
}
