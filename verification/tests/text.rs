use squid::text::{join_strings, parse_bool, parse_i32, parse_u32, trim_string, u64_decimal};

#[test]
fn numbers_parse_like_the_standard_library() {
    assert_eq!(parse_u32("42"), "42".parse::<u32>().ok());
    assert_eq!(parse_u32("+7"), "+7".parse::<u32>().ok());
    assert_eq!(parse_u32("4294967296"), None);
    assert_eq!(parse_u32(" 1"), None);
    assert_eq!(parse_i32("-2147483648"), Some(i32::MIN));
    assert_eq!(parse_i32("-2147483649"), None);
    assert_eq!(parse_i32("-"), None);
    assert_eq!(parse_bool("true"), Some(true));
    assert_eq!(parse_bool("yes"), None);
}

#[test]
fn decimal_and_join() {
    assert_eq!(u64_decimal(0), "0");
    assert_eq!(u64_decimal(10485760), "10485760");
    assert_eq!(join_strings(&vec!["a".to_string(), "b".to_string()], ", "), "a, b");
    assert_eq!(trim_string("\u{3000} x \n"), "x");
}
