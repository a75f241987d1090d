use cactus::strutil::{parse_u64, str_eq, u64_to_string};

#[test]
fn decimal_rendering() {
    assert_eq!(u64_to_string(0), "0");
    assert_eq!(u64_to_string(7), "7");
    assert_eq!(u64_to_string(8192), "8192");
    assert_eq!(u64_to_string(u64::MAX), "18446744073709551615");
}

#[test]
fn decimal_parsing_round_trip() {
    for n in [0u64, 1, 9, 10, 99, 8191, 8192, u64::MAX] {
        assert_eq!(parse_u64(&u64_to_string(n)), Some(n));
    }
}

#[test]
fn decimal_parsing_rejects_bad_input() {
    assert_eq!(parse_u64(""), None);
    assert_eq!(parse_u64("12a"), None);
    assert_eq!(parse_u64("-5"), None);
    assert_eq!(parse_u64("18446744073709551616"), None);
    // Leading zeros are digits and read as the same value.
    assert_eq!(parse_u64("0012"), Some(12));
}

#[test]
fn string_equality_is_exact() {
    assert!(str_eq("stable_diffusion", "stable_diffusion"));
    assert!(!str_eq("stable_diffusion", "stable_diffusio"));
    assert!(!str_eq("", "x"));
    assert!(str_eq("", ""));
}
