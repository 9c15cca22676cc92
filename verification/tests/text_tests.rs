use cgminer_rs::text::{contains, parse_u32, starts_with, str_equal};

#[test]
fn parse_matches_std() {
    let samples = [
        "", "0", "7", "+7", "-7", "+", "42", "007", "4294967295", "4294967296", "99999999999", "1 2", " 1", "1a",
        "+0", "++1", "１",
    ];
    for s in samples.iter() {
        assert_eq!(parse_u32(s), s.parse::<u32>().ok(), "input {:?}", s);
    }
    for n in [0u32, 1, 9, 10, 99, 100, 65535, 4_000_000_000, u32::MAX] {
        assert_eq!(parse_u32(&n.to_string()), Some(n));
    }
}

#[test]
fn text_comparisons() {
    assert!(str_equal("abc", "abc"));
    assert!(!str_equal("abc", "abd"));
    assert!(starts_with("btc-software", "btc"));
    assert!(!starts_with("bt", "btc"));
    assert!(contains("cpu-btc-1", "btc"));
    assert!(contains("x", ""));
    assert!(!contains("gpu", "cpu"));
}
