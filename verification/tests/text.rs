use netlab::text::{
    decode_text, from_chars, parse_u32_chars, push_decimal, split_on, split_once_at, to_chars,
    trim_chars, trim_line_end_chars,
};

fn chars(s: &str) -> Vec<char> {
    s.chars().collect()
}

#[test]
fn parse_u32_cases() {
    assert_eq!(parse_u32_chars(&chars("0")), Some(0));
    assert_eq!(parse_u32_chars(&chars("+12")), Some(12));
    assert_eq!(parse_u32_chars(&chars("007")), Some(7));
    assert_eq!(parse_u32_chars(&chars("4294967295")), Some(u32::MAX));
    assert_eq!(parse_u32_chars(&chars("4294967296")), None);
    assert_eq!(parse_u32_chars(&chars("")), None);
    assert_eq!(parse_u32_chars(&chars("+")), None);
    assert_eq!(parse_u32_chars(&chars("-1")), None);
    assert_eq!(parse_u32_chars(&chars(" 1")), None);
    assert_eq!(parse_u32_chars(&chars("1a")), None);
    for s in ["0", "+3", "42", "4294967295", "", "+", "x", "99999999999"] {
        assert_eq!(parse_u32_chars(&chars(s)), s.parse::<u32>().ok());
    }
}

#[test]
fn decimal_reads_back() {
    for n in [0u32, 7, 10, 99, 100, 65535, u32::MAX] {
        let mut v = Vec::new();
        push_decimal(&mut v, n as u64);
        assert_eq!(from_chars(&v), n.to_string());
        assert_eq!(parse_u32_chars(&v), Some(n));
    }
}

#[test]
fn split_like_str_split() {
    for s in ["", "a", "a b", " a", "a  b ", "00 LDN 20"] {
        let fields: Vec<String> = split_on(&chars(s), ' ').iter().map(|f| from_chars(f)).collect();
        let expected: Vec<String> = s.split(' ').map(|f| f.to_string()).collect();
        assert_eq!(fields, expected);
    }
}

#[test]
fn split_once_like_str_split_once() {
    for s in ["", "a", "a|b", "|", "a|b|c", "JOIN|"] {
        let got = split_once_at(&chars(s), '|').map(|(a, b)| (from_chars(&a), from_chars(&b)));
        let expected = s.split_once('|').map(|(a, b)| (a.to_string(), b.to_string()));
        assert_eq!(got, expected);
    }
}

#[test]
fn trim_like_str_trim() {
    for s in ["", "  ", " bob\t\n", "\u{3000}x\u{a0}", "a b", "\u{200b}z"] {
        assert_eq!(from_chars(&trim_chars(&chars(s))), s.trim());
    }
    for s in ["hi\r\n", "hi\n\n", "hi \n", "\r", "x"] {
        assert_eq!(from_chars(&trim_line_end_chars(&chars(s))), s.trim_end_matches(['\r', '\n']));
    }
}

#[test]
fn conversions() {
    assert_eq!(to_chars("héllo"), vec!['h', 'é', 'l', 'l', 'o']);
    assert_eq!(from_chars(&vec!['a', 'ß']), "aß");
    assert_eq!(decode_text("héllo".as_bytes()), Some(String::from("héllo")));
    assert_eq!(decode_text(&[0xff, 0x41]), None);
    assert_eq!(decode_text(&[0xc0, 0x80]), None);
    assert_eq!(decode_text(&[]), Some(String::new()));
}
