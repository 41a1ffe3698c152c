use netlab::services::{
    address_wanted, capture_source, check_request, echo_response, empty_domain_reply,
    fortune_reply, fortune_request, fortune_text, is_big_endian, join_lines, resolver_query,
    verbose_enabled, Fortune, InputSource, RequestCheck,
};

#[test]
fn verbosity() {
    assert!(verbose_enabled(1, 1));
    assert!(verbose_enabled(3, 2));
    assert!(!verbose_enabled(0, 1));
    assert!(!verbose_enabled(1, 2));
}

#[test]
fn capture_sources() {
    assert!(matches!(capture_source(Some("eth0".into()), None), InputSource::Interface(i) if i == "eth0"));
    assert!(matches!(capture_source(None, Some("t.pcap".into())), InputSource::File(f) if f == "t.pcap"));
}

#[test]
fn fortune_exchange() {
    assert!(matches!(fortune_request(), Fortune::MessageType(t) if t == "REQ"));
    assert!(matches!(check_request(&Fortune::MessageType("REQ".into())), RequestCheck::Request));
    assert!(matches!(check_request(&Fortune::MessageType("REP".into())), RequestCheck::UnknownType));
    assert!(matches!(check_request(&Fortune::Text("hi".into())), RequestCheck::UnexpectedText));
    let fortunes = vec!["a".to_string(), "b".to_string(), "c".to_string()];
    for _ in 0..20 {
        match fortune_reply(&fortunes) {
            Some(Fortune::Text(t)) => assert!(fortunes.contains(&t)),
            _ => panic!("expected a fortune"),
        }
    }
    assert!(fortune_reply(&Vec::new()).is_none());
    assert_eq!(fortune_text(&Fortune::Text("luck".into())), Some("luck".to_string()));
    assert_eq!(fortune_text(&Fortune::MessageType("REQ".into())), None);
}

#[test]
fn echo_upper_cases() {
    assert_eq!(echo_response("hello, world\n"), "HELLO, WORLD\n");
    assert_eq!(echo_response("straße é"), "STRASSE É");
    assert_eq!(echo_response(""), "");
}

#[test]
fn lookups() {
    assert_eq!(resolver_query("www.google.com"), "www.google.com:0");
    assert_eq!(join_lines(&vec!["1.2.3.4:0".into(), "[::1]:0".into()]), "1.2.3.4:0\n[::1]:0");
    assert_eq!(join_lines(&vec!["x".into()]), "x");
    assert_eq!(join_lines(&Vec::new()), "");
    assert!(address_wanted(false, false, true));
    assert!(address_wanted(false, false, false));
    assert!(address_wanted(true, false, true));
    assert!(!address_wanted(true, false, false));
    assert!(!address_wanted(false, true, true));
    assert!(address_wanted(false, true, false));
    assert!(!address_wanted(true, true, true));
    assert_eq!(empty_domain_reply(""), Some("Empty domain name".to_string()));
    assert_eq!(empty_domain_reply("a"), None);
}

#[test]
fn byte_order() {
    let (native, big) = is_big_endian(0x1234);
    assert_eq!(big, [0x12, 0x34]);
    assert_eq!(native, 0x1234u16.to_ne_bytes());
    assert!(native == [0x12, 0x34] || native == [0x34, 0x12]);
    assert_eq!(u16::from_be_bytes(big), 0x1234);
}
