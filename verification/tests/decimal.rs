use twitch_highlights::decimal::parse_u32_or_zero;

#[test]
fn counts_read_as_str_parse_reads_them() {
    assert_eq!(0, parse_u32_or_zero("0"));
    assert_eq!(42, parse_u32_or_zero("42"));
    assert_eq!(42, parse_u32_or_zero("+42"));
    assert_eq!(7, parse_u32_or_zero("007"));
    assert_eq!(4294967295, parse_u32_or_zero("4294967295"));
    // refused texts read as 0
    assert_eq!(0, parse_u32_or_zero("4294967296"));
    assert_eq!(0, parse_u32_or_zero(""));
    assert_eq!(0, parse_u32_or_zero("+"));
    assert_eq!(0, parse_u32_or_zero("-1"));
    assert_eq!(0, parse_u32_or_zero(" 1"));
    assert_eq!(0, parse_u32_or_zero("1a"));
    assert_eq!(0, parse_u32_or_zero("++1"));
    for s in ["0", "42", "+42", "007", "4294967295", "4294967296", "", "+", "-1", " 1", "1a", "++1", "99999999999999999999"] {
        assert_eq!(s.parse::<u32>().unwrap_or_default(), parse_u32_or_zero(s));
    }
}
