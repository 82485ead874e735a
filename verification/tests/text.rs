use xauusd_engine::text::{parse_i64, parse_u64};

#[test]
fn integers_parse_like_str_parse() {
    assert_eq!(parse_i64("1700000000123"), Some(1_700_000_000_123));
    assert_eq!(parse_i64("-42"), Some(-42));
    assert_eq!(parse_i64("+42"), Some(42));
    assert_eq!(parse_i64("-9223372036854775808"), Some(i64::MIN));
    assert_eq!(parse_i64("9223372036854775807"), Some(i64::MAX));
    assert_eq!(parse_i64("9223372036854775808"), None);
    assert_eq!(parse_i64("-9223372036854775809"), None);
    for bad in ["", "-", "+", "-+1", "1.5", " 1", "0x10"] {
        assert_eq!(parse_i64(bad), None, "{bad:?}");
        assert_eq!(bad.parse::<i64>().ok(), None);
    }
    assert_eq!(parse_u64("007"), Some(7));
    assert_eq!(parse_u64("-7"), None);
}
