use snap_coin_node::text::{bool_str, decimal_text, parse_port, push_decimal, split_commas};

#[test]
fn decimal_of_zero_is_one_digit() {
    assert_eq!(decimal_text(0), "0");
}

#[test]
fn decimal_has_no_leading_zero() {
    assert_eq!(decimal_text(7), "7");
    assert_eq!(decimal_text(10), "10");
    assert_eq!(decimal_text(8998), "8998");
    assert_eq!(decimal_text(1_000_000), "1000000");
}

#[test]
fn decimal_of_the_largest_value() {
    assert_eq!(decimal_text(u64::MAX), "18446744073709551615");
}

#[test]
fn decimal_agrees_with_display() {
    let mut n: u64 = 1;
    for _ in 0..64 {
        assert_eq!(decimal_text(n), n.to_string());
        assert_eq!(decimal_text(n - 1), (n - 1).to_string());
        n = n.wrapping_mul(3).wrapping_add(7);
    }
}

#[test]
fn push_decimal_appends() {
    let mut s = String::from("H: ");
    push_decimal(&mut s, 42);
    assert_eq!(s, "H: 42");
    push_decimal(&mut s, 0);
    assert_eq!(s, "H: 420");
}

#[test]
fn bool_text_is_lower_case() {
    assert_eq!(bool_str(true), "true");
    assert_eq!(bool_str(false), "false");
}

#[test]
fn port_of_plain_digits() {
    assert_eq!(parse_port("80"), Some(80));
    assert_eq!(parse_port("0"), Some(0));
    assert_eq!(parse_port("3003"), Some(3003));
    assert_eq!(parse_port("8998"), Some(8998));
}

#[test]
fn port_at_the_upper_bound() {
    assert_eq!(parse_port("65535"), Some(65535));
    assert_eq!(parse_port("65536"), None);
    assert_eq!(parse_port("99999"), None);
    assert_eq!(parse_port("4294967296"), None);
    assert_eq!(parse_port("18446744073709551616"), None);
}

#[test]
fn port_with_leading_zeros_or_plus() {
    assert_eq!(parse_port("0080"), Some(80));
    assert_eq!(parse_port("00000000000000000000065535"), Some(65535));
    assert_eq!(parse_port("+80"), Some(80));
    assert_eq!(parse_port("+0"), Some(0));
}

#[test]
fn port_rejects_what_is_not_a_number() {
    assert_eq!(parse_port(""), None);
    assert_eq!(parse_port("+"), None);
    assert_eq!(parse_port("++1"), None);
    assert_eq!(parse_port("-1"), None);
    assert_eq!(parse_port("-0"), None);
    assert_eq!(parse_port(" 80"), None);
    assert_eq!(parse_port("80 "), None);
    assert_eq!(parse_port("8a"), None);
    assert_eq!(parse_port("8_0"), None);
    assert_eq!(parse_port("0x50"), None);
    assert_eq!(parse_port("８０"), None);
    assert_eq!(parse_port("abc"), None);
}

#[test]
fn port_agrees_with_the_standard_parser() {
    let samples = [
        "1", "12", "123", "1234", "12345", "123456", "65535", "65536", "065535", "+65535",
        "+65536", "+", "", "-", "+-1", "1+", "6553 5", "٣", "1e3", "70000", "00", "+00",
    ];
    for s in samples {
        assert_eq!(parse_port(s), s.parse::<u16>().ok(), "{}", s);
    }
    for n in 0u32..70000 {
        let s = n.to_string();
        assert_eq!(parse_port(&s), s.parse::<u16>().ok(), "{}", s);
    }
}

#[test]
fn split_of_empty_text_is_one_empty_piece() {
    assert_eq!(split_commas(""), vec![String::new()]);
}

#[test]
fn split_without_comma_is_the_text() {
    assert_eq!(split_commas("127.0.0.1:8998"), vec!["127.0.0.1:8998".to_string()]);
}

#[test]
fn split_keeps_empty_pieces() {
    assert_eq!(split_commas("a,b"), vec!["a".to_string(), "b".to_string()]);
    assert_eq!(split_commas("a,,b"), vec!["a".to_string(), String::new(), "b".to_string()]);
    assert_eq!(split_commas(",a"), vec![String::new(), "a".to_string()]);
    assert_eq!(split_commas("a,"), vec!["a".to_string(), String::new()]);
    assert_eq!(split_commas(","), vec![String::new(), String::new()]);
}

#[test]
fn split_counts_characters_not_bytes() {
    assert_eq!(split_commas("é,ß,日本"), vec!["é".to_string(), "ß".to_string(), "日本".to_string()]);
}

#[test]
fn split_agrees_with_the_standard_split() {
    let samples = ["", ",", ",,", "a", "a,b,c", "node1:1,node2:2", ",x,", "x,,y,,", "é,,ü"];
    for s in samples {
        let expected: Vec<String> = s.split(',').map(|p| p.to_string()).collect();
        assert_eq!(split_commas(s), expected, "{:?}", s);
    }
}

#[test]
fn split_pieces_join_back_and_hold_no_comma() {
    let samples = ["", ",", "a,b", "10.0.0.1:8998,10.0.0.2:8998,", ",,x"];
    for s in samples {
        let pieces = split_commas(s);
        assert!(!pieces.is_empty());
        assert!(pieces.iter().all(|p| !p.contains(',')));
        assert_eq!(pieces.join(","), s);
    }
}

#[test]
fn decimal_of_a_port_reads_back() {
    for port in [0u16, 1, 9, 10, 80, 3003, 8998, 65534, 65535] {
        let text = decimal_text(u64::from(port));
        assert!(text.bytes().all(|b| b.is_ascii_digit()));
        assert!(port == 0 || !text.starts_with('0'));
        assert_eq!(parse_port(&text), Some(port));
    }
}
