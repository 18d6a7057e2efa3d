//! Decimal text: parsing and rendering agree with each other and with
//! the standard library.

use pledge_indexer::numtext::i32_to_string;
use pledge_indexer::numtext::parse_u64;
use pledge_indexer::numtext::u64_to_string;

#[test]
fn parse_accepts_exactly_the_64_bit_decimals() {
    assert_eq!(parse_u64("0"), Some(0));
    assert_eq!(parse_u64("42"), Some(42));
    assert_eq!(parse_u64("0042"), Some(42));
    assert_eq!(parse_u64("18446744073709551615"), Some(u64::MAX));
    assert_eq!(parse_u64("18446744073709551616"), None);
    assert_eq!(parse_u64(""), None);
    assert_eq!(parse_u64("12a"), None);
    assert_eq!(parse_u64("-1"), None);
    assert_eq!(parse_u64(" 1"), None);
}

#[test]
fn rendering_round_trips_through_parsing() {
    for n in [0u64, 1, 9, 10, 4999, 1700000000, u64::MAX] {
        let s = u64_to_string(n);
        assert_eq!(s, n.to_string());
        assert_eq!(parse_u64(&s), Some(n));
    }
}

#[test]
fn signed_rendering_matches_the_standard_library() {
    for n in [0i32, 1, -1, 42, -42, i32::MAX, i32::MIN] {
        assert_eq!(i32_to_string(n), n.to_string());
    }
}
