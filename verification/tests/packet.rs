use netlab::net::IpAddress;
use netlab::packet::{
    build_frame, frame_info, get_interface, hello_frame, packet_handler, protocol_of, NetworkKind,
    ProtocolCounter,
};

fn ipv4_frame(protocol: u8, src: [u8; 4], dst: [u8; 4]) -> Vec<u8> {
    let mut f = vec![0u8; 34];
    f[12] = 0x08;
    f[13] = 0x00;
    f[14] = 0x45;
    f[23] = protocol;
    f[26..30].copy_from_slice(&src);
    f[30..34].copy_from_slice(&dst);
    f
}

#[test]
fn fixed_offsets() {
    let f = ipv4_frame(6, [192, 168, 1, 10], [8, 8, 4, 4]);
    let p = packet_handler(&f);
    assert_eq!(p.src, IpAddress::V4(u32::from_be_bytes([192, 168, 1, 10])));
    assert_eq!(p.dst, IpAddress::V4(u32::from_be_bytes([8, 8, 4, 4])));
    assert_eq!(p.protocol, 6);
    assert_eq!(protocol_of(&f), Some(6));
    assert_eq!(protocol_of(&f[..23]), None);
    assert_eq!(protocol_of(&f[..24]), Some(6));
}

#[test]
fn protocol_counting_and_ranking() {
    let mut c = ProtocolCounter::new();
    c.count_protocols(&ipv4_frame(6, [1, 1, 1, 1], [2, 2, 2, 2]));
    c.count_protocols(&ipv4_frame(17, [1, 1, 1, 1], [2, 2, 2, 2]));
    c.count_protocols(&ipv4_frame(1, [1, 1, 1, 1], [2, 2, 2, 2]));
    assert_eq!((c.tcp, c.udp), (1, 1));
    assert!(!c.tcp_first());
    c.record_protocol(6);
    assert_eq!((c.tcp, c.udp), (2, 1));
    assert!(c.tcp_first());
}

#[test]
fn frames_round_trip() {
    let f = hello_frame();
    assert_eq!(f.len(), 14 + 11);
    assert_eq!(&f[..6], &[0xff; 6]);
    assert_eq!(&f[6..12], &[2, 0, 0, 0, 0, 1]);
    assert_eq!(&f[12..14], &[0x08, 0x00]);
    assert_eq!(&f[14..], b"Hello, pcap");
    let info = frame_info(&f);
    assert_eq!(info.destination, vec![0xff; 6]);
    assert_eq!(info.source, vec![2, 0, 0, 0, 0, 1]);
    assert_eq!(info.ethertype, 0x0800);
    assert_eq!(info.network, NetworkKind::Truncated);

    let g = build_frame(&[1, 2, 3, 4, 5, 6], &[7, 8, 9, 10, 11, 12], 0x86dd, &[0u8; 40]);
    let info = frame_info(&g);
    assert_eq!(info.ethertype, 0x86dd);
    assert_eq!(info.network, NetworkKind::Ipv6);
    let h = build_frame(&[1; 6], &[2; 6], 0x0800, &[0u8; 20]);
    assert_eq!(frame_info(&h).network, NetworkKind::Ipv4);
    let a = build_frame(&[1; 6], &[2; 6], 0x0806, &[0u8; 28]);
    assert_eq!(frame_info(&a).network, NetworkKind::Other);
}

#[test]
fn interfaces_by_name() {
    let names = vec!["lo".to_string(), "eth0".to_string(), "eth0".to_string()];
    assert_eq!(get_interface(&names, "eth0"), Some(1));
    assert_eq!(get_interface(&names, "lo"), Some(0));
    assert_eq!(get_interface(&names, "wlan0"), None);
    assert_eq!(get_interface(&Vec::new(), "lo"), None);
}
