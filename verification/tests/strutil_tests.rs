use tronctl::strutil::{bytes_contains, i64_to_string, u64_to_dec_bytes, u64_to_string};

#[test]
fn decimal_rendering_of_unsigned_values() {
    assert_eq!(u64_to_string(0), "0");
    assert_eq!(u64_to_string(7), "7");
    assert_eq!(u64_to_string(42), "42");
    assert_eq!(u64_to_string(1024), "1024");
    assert_eq!(u64_to_string(u64::MAX), "18446744073709551615");
}

#[test]
fn decimal_rendering_of_signed_values() {
    assert_eq!(i64_to_string(0), "0");
    assert_eq!(i64_to_string(12345), "12345");
    assert_eq!(i64_to_string(-1), "-1");
    assert_eq!(i64_to_string(i64::MIN), "-9223372036854775808");
}

#[test]
fn decimal_bytes_match_their_digits() {
    assert_eq!(u64_to_dec_bytes(0), b"0".to_vec());
    assert_eq!(u64_to_dec_bytes(907), b"907".to_vec());
}

#[test]
fn byte_search_finds_substrings() {
    assert!(bytes_contains(b"java version \"1.8.0\"", b"1.8"));
    assert!(bytes_contains(b"abc", b""));
    assert!(bytes_contains(b"abc", b"abc"));
    assert!(!bytes_contains(b"abc", b"abcd"));
    assert!(!bytes_contains(b"abc", b"ac"));
}
