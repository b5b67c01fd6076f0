use rushortner::{base62_decode, base62_encode};

const ALPHABET: &[u8] = b"0123456789ABCDEFGHIJKLMNOPQRSTUVWXYZabcdefghijklmnopqrstuvwxyz";

#[test]
fn encode_zero_is_zero_symbol() {
    assert_eq!(base62_encode(0), "0");
}

#[test]
fn encode_sixty_one_is_last_symbol() {
    assert_eq!(base62_encode(61), "z");
    assert_eq!(base62_encode(61).as_bytes()[0], ALPHABET[61]);
}

#[test]
fn encode_sixty_two_is_one_zero() {
    let s = base62_encode(62);
    assert_eq!(s.as_bytes()[0], ALPHABET[1]);
    assert_eq!(s.as_bytes()[1], ALPHABET[0]);
    assert_eq!(s, "10");
}

#[test]
fn encode_small_values() {
    assert_eq!(base62_encode(1), "1");
    assert_eq!(base62_encode(9), "9");
    assert_eq!(base62_encode(10), "A");
    assert_eq!(base62_encode(35), "Z");
    assert_eq!(base62_encode(36), "a");
    assert_eq!(base62_encode(63), "11");
    assert_eq!(base62_encode(3844), "100");
}

#[test]
fn round_trip_concrete() {
    assert_eq!(base62_decode(&base62_encode(123456789)), Some(123456789));
}

#[test]
fn round_trip_samples() {
    for &n in &[0u64, 1, 61, 62, 63, 3843, 3844, 1_000_000, u64::MAX - 1, u64::MAX] {
        assert_eq!(base62_decode(&base62_encode(n)), Some(n));
    }
}

#[test]
fn encode_uses_only_alphabet_symbols() {
    for &n in &[0u64, 61, 62, 123456789, u64::MAX] {
        for b in base62_encode(n).bytes() {
            assert!(ALPHABET.contains(&b));
        }
    }
}

#[test]
fn encode_has_no_leading_zero_symbol() {
    for &n in &[1u64, 62, 3844, u64::MAX] {
        assert_ne!(base62_encode(n).as_bytes()[0], b'0');
    }
}

#[test]
fn decode_rejects_foreign_characters() {
    assert_eq!(base62_decode("!!"), None);
    assert_eq!(base62_decode("!abc"), None);
    assert_eq!(base62_decode("ab-c"), None);
    assert_eq!(base62_decode("abc_"), None);
    assert_eq!(base62_decode("caf\u{e9}"), None);
}

#[test]
fn decode_rejects_empty_string() {
    assert_eq!(base62_decode(""), None);
}

#[test]
fn decode_rejects_overflowing_value() {
    let mut too_big = base62_encode(u64::MAX);
    too_big.push('0');
    assert_eq!(base62_decode(&too_big), None);
}

#[test]
fn decode_accepts_leading_zero_symbols() {
    assert_eq!(base62_decode("00"), Some(0));
    assert_eq!(base62_decode("010"), Some(62));
}
