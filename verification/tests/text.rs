use relation::text::{chars_of, find_char, parse_u16, same_text, split_on, split_pair};

fn owned(v: &[&str]) -> Vec<String> {
    v.iter().map(|s| s.to_string()).collect()
}

#[test]
fn split_on_cuts_at_every_separator() {
    assert_eq!(split_on("a=1&b=2&c", '&'), owned(&["a=1", "b=2", "c"]));
    assert_eq!(split_on("", '&'), owned(&[""]));
    assert_eq!(split_on("&", '&'), owned(&["", ""]));
    assert_eq!(split_on("a&&b&", '&'), owned(&["a", "", "b", ""]));
    assert_eq!(split_on("no separator", '&'), owned(&["no separator"]));
    assert_eq!(split_on("é&ü", '&'), owned(&["é", "ü"]));
}

#[test]
fn split_pair_cuts_at_the_first_equals_sign() {
    assert_eq!(split_pair("k=v"), Some(("k".to_string(), "v".to_string())));
    assert_eq!(split_pair("k=v=w"), Some(("k".to_string(), "v=w".to_string())));
    assert_eq!(split_pair("=v"), Some((String::new(), "v".to_string())));
    assert_eq!(split_pair("k="), Some(("k".to_string(), String::new())));
    assert_eq!(split_pair("k"), None);
    assert_eq!(split_pair(""), None);
}

#[test]
fn parse_u16_reads_decimal_numbers() {
    assert_eq!(parse_u16("0"), Some(0));
    assert_eq!(parse_u16("8"), Some(8));
    assert_eq!(parse_u16("443"), Some(443));
    assert_eq!(parse_u16("65535"), Some(65535));
    assert_eq!(parse_u16("+17"), Some(17));
    assert_eq!(parse_u16("00012"), Some(12));
    assert_eq!(parse_u16("0000000000000000000065535"), Some(65535));
}

#[test]
fn parse_u16_refuses_what_is_no_number() {
    assert_eq!(parse_u16(""), None);
    assert_eq!(parse_u16("+"), None);
    assert_eq!(parse_u16("-1"), None);
    assert_eq!(parse_u16("++1"), None);
    assert_eq!(parse_u16("1+"), None);
    assert_eq!(parse_u16("12a"), None);
    assert_eq!(parse_u16(" 1"), None);
    assert_eq!(parse_u16("65536"), None);
    assert_eq!(parse_u16("99999999999999999999"), None);
    assert_eq!(parse_u16("١٢"), None);
}

#[test]
fn parse_u16_agrees_with_the_standard_parser() {
    for s in ["0", "1", "+1", "-0", "65535", "65536", "", "+", "007", "7 ", "0x10", "1_000"] {
        assert_eq!(parse_u16(s), s.parse::<u16>().ok(), "on {:?}", s);
    }
}

#[test]
fn find_char_gives_the_first_position() {
    let v = chars_of("a&b&c");
    assert_eq!(find_char(&v, '&', 0), 1);
    assert_eq!(find_char(&v, '&', 1), 1);
    assert_eq!(find_char(&v, '&', 2), 3);
    assert_eq!(find_char(&v, '&', 4), 5);
    assert_eq!(find_char(&v, '&', 5), 5);
    assert_eq!(find_char(&v, 'x', 0), 5);
}

#[test]
fn same_text_compares_characters() {
    assert!(same_text("vless", "vless"));
    assert!(!same_text("vless", "vles"));
    assert!(!same_text("vless", "VLESS"));
    assert!(same_text("", ""));
    assert_eq!(chars_of("aé"), vec!['a', 'é']);
}
