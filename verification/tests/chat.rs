use netlab::chat::{
    classify_reply, client_action, decode_datagram, join_message, validate_username, ChatMsg,
    ChatServer, ClientAction, Outgoing, ServerReply,
};
use netlab::net::{IpAddress, SockAddr};

fn addr(last: u8, port: u16) -> SockAddr {
    SockAddr { ip: IpAddress::V4(0x7f00_0000 | last as u32), port }
}

fn msg(text: &str, user: &str) -> ChatMsg {
    ChatMsg { msg: text.to_string(), username: user.to_string() }
}

fn sent(outs: &[Outgoing]) -> Vec<(String, SockAddr)> {
    outs.iter().map(|o| (o.text.clone(), o.to)).collect()
}

fn room() -> ChatServer {
    let mut s = ChatServer::new();
    s.handle(&msg("JOIN|alice", "alice"), addr(1, 1001));
    s.handle(&msg("JOIN|bob", "bob"), addr(2, 1002));
    s.handle(&msg("JOIN|carol", "carol"), addr(3, 1003));
    s
}

#[test]
fn join_registers_and_announces() {
    let mut s = ChatServer::new();
    let outs = s.handle(&msg("JOIN|alice", "alice"), addr(1, 1001));
    assert!(outs.is_empty());
    assert_eq!(s.address("alice"), Some(addr(1, 1001)));
    let outs = s.handle(&msg("JOIN|bob", "bob"), addr(2, 1002));
    assert_eq!(sent(&outs), vec![("SEND|User bob joined the chatroom!".to_string(), addr(1, 1001))]);
    assert_eq!(s.len(), 2);
}

#[test]
fn join_taken_name_is_refused() {
    let mut s = room();
    let outs = s.handle(&msg("JOIN|alice", "alice"), addr(9, 9));
    assert_eq!(sent(&outs), vec![("ERROR|The username alice already exists!".to_string(), addr(9, 9))]);
    assert_eq!(s.address("alice"), Some(addr(1, 1001)));
    assert_eq!(s.len(), 3);
}

#[test]
fn public_message_reaches_everyone_but_the_sender() {
    let mut s = room();
    let outs = s.handle(&msg("SEND|bob|hello all", "bob"), addr(2, 1002));
    assert_eq!(
        sent(&outs),
        vec![
            ("SEND|<bob> hello all".to_string(), addr(1, 1001)),
            ("SEND|<bob> hello all".to_string(), addr(3, 1003)),
        ]
    );
    let outs = s.handle(&msg("SEND|bob|a|b", "bob"), addr(2, 1002));
    assert_eq!(outs[0].text, "SEND|<bob> a|b");
}

#[test]
fn public_message_without_text_field_is_an_error() {
    let mut s = room();
    let outs = s.handle(&msg("SEND|nobar", "bob"), addr(2, 1002));
    assert_eq!(sent(&outs), vec![("ERROR|Invalid public message".to_string(), addr(2, 1002))]);
}

#[test]
fn private_message() {
    let mut s = room();
    let outs = s.handle(&msg("PRIV|carol|psst", "alice"), addr(1, 1001));
    assert_eq!(sent(&outs), vec![("SEND|[Private from alice] psst".to_string(), addr(3, 1003))]);
    let outs = s.handle(&msg("PRIV|dave|psst", "alice"), addr(1, 1001));
    assert_eq!(sent(&outs), vec![("ERROR|Username dave not in chatroom!".to_string(), addr(1, 1001))]);
    let outs = s.handle(&msg("PRIV|carol", "alice"), addr(1, 1001));
    assert_eq!(sent(&outs), vec![("ERROR|Invalid private message".to_string(), addr(1, 1001))]);
}

#[test]
fn quit_removes_and_announces() {
    let mut s = room();
    let outs = s.handle(&msg("QUIT|bob", "bob"), addr(2, 1002));
    assert_eq!(
        sent(&outs),
        vec![
            ("SEND|User bob left the chatroom!".to_string(), addr(1, 1001)),
            ("SEND|User bob left the chatroom!".to_string(), addr(3, 1003)),
        ]
    );
    assert_eq!(s.address("bob"), None);
    assert_eq!(s.len(), 2);
    let outs = s.handle(&msg("QUIT|bob", "bob"), addr(2, 1002));
    assert_eq!(sent(&outs), vec![("ERROR|Username bob not in chatroom!".to_string(), addr(2, 1002))]);
}

#[test]
fn malformed_and_unknown_commands() {
    let mut s = room();
    let outs = s.handle(&msg("hello", "bob"), addr(2, 1002));
    assert_eq!(sent(&outs), vec![("ERROR|Invalid message: missing |".to_string(), addr(2, 1002))]);
    let outs = s.handle(&msg("DANCE|now", "bob"), addr(2, 1002));
    assert_eq!(sent(&outs), vec![("ERROR|Unknown command".to_string(), addr(2, 1002))]);
    assert_eq!(s.len(), 3);
}

#[test]
fn usernames() {
    assert_eq!(validate_username("  bob \n"), Some("bob".to_string()));
    assert_eq!(validate_username("   "), None);
    assert_eq!(validate_username(""), None);
    assert_eq!(validate_username("a|b"), None);
    assert_eq!(validate_username("anna maria"), Some("anna maria".to_string()));
    let j = join_message("bob");
    assert_eq!(j.msg, "JOIN|bob");
    assert_eq!(j.username, "bob");
}

#[test]
fn client_actions() {
    match client_action("/quit\n", "bob") {
        ClientAction::Quit(m) => {
            assert_eq!(m.msg, "QUIT|bob");
            assert_eq!(m.username, "bob");
        }
        _ => panic!("expected quit"),
    }
    match client_action("/msg carol hi there\r\n", "bob") {
        ClientAction::Send(m) => assert_eq!(m.msg, "PRIV|carol|hi there"),
        _ => panic!("expected private message"),
    }
    assert!(matches!(client_action("/msg carol\n", "bob"), ClientAction::Usage));
    assert!(matches!(client_action("/msg  hi\n", "bob"), ClientAction::Usage));
    assert!(matches!(client_action("/msg carol \n", "bob"), ClientAction::Usage));
    assert!(matches!(client_action("\n", "bob"), ClientAction::Nothing));
    match client_action("hello world\n", "bob") {
        ClientAction::Send(m) => {
            assert_eq!(m.msg, "SEND|bob|hello world");
            assert_eq!(m.username, "bob");
        }
        _ => panic!("expected public message"),
    }
    match client_action("/quitting\n", "bob") {
        ClientAction::Send(m) => assert_eq!(m.msg, "SEND|bob|/quitting"),
        _ => panic!("expected public message"),
    }
}

#[test]
fn server_replies() {
    assert!(matches!(classify_reply("SEND|<bob> hi"), ServerReply::Chat(t) if t == "<bob> hi"));
    assert!(matches!(classify_reply("ERROR|nope"), ServerReply::Error(t) if t == "nope"));
    assert!(matches!(classify_reply("PING|x"), ServerReply::Unknown(k, t) if k == "PING" && t == "x"));
    assert!(matches!(classify_reply("garbage"), ServerReply::Malformed));
}

#[test]
fn plain_text_round_trip() {
    let mut s = room();
    let name = validate_username(" bob ").unwrap();
    let m = match client_action("good morning\n", &name) {
        ClientAction::Send(m) => m,
        _ => panic!("expected public message"),
    };
    let outs = s.handle(&m, addr(2, 1002));
    assert_eq!(outs.len(), 2);
    for o in &outs {
        assert!(matches!(classify_reply(&o.text), ServerReply::Chat(t) if t == "<bob> good morning"));
    }
}

#[test]
fn datagram_decoding() {
    assert_eq!(decode_datagram(b"  {\"a\":1}\n"), Some("{\"a\":1}".to_string()));
    assert_eq!(decode_datagram(&[0xfe, 0xff]), None);
}

#[test]
fn private_round_trip() {
    let mut s = room();
    let m = match client_action("/msg carol see you later\n", "alice") {
        ClientAction::Send(m) => m,
        _ => panic!("expected private message"),
    };
    let outs = s.handle(&m, addr(1, 1001));
    assert_eq!(outs.len(), 1);
    assert_eq!(outs[0].to, addr(3, 1003));
    assert!(matches!(classify_reply(&outs[0].text), ServerReply::Chat(t) if t == "[Private from alice] see you later"));
}
