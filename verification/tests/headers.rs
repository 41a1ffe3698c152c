use etherparse::{IpHeaders, IpNumber, Ipv4Extensions, Ipv4Header, PacketBuilder, TcpHeader};
use netlab::headers::{capture_hosts, classify_frame, count_frame, extract_headers, NetKind, ProbeOutcome};
use netlab::net::IpAddress;

const SRC_MAC: [u8; 6] = [2, 0, 0, 0, 0, 1];
const DST_MAC: [u8; 6] = [2, 0, 0, 0, 0, 2];

fn tcp_v4(payload: &[u8]) -> Vec<u8> {
    let mut v = Vec::new();
    PacketBuilder::ethernet2(SRC_MAC, DST_MAC)
        .ipv4([192, 168, 0, 1], [10, 0, 0, 7], 64)
        .tcp(40000, 443, 1, 1024)
        .write(&mut v, payload)
        .unwrap();
    v
}

fn udp_v4() -> Vec<u8> {
    let mut v = Vec::new();
    PacketBuilder::ethernet2(SRC_MAC, DST_MAC)
        .ipv4([1, 2, 3, 4], [5, 6, 7, 8], 64)
        .udp(53, 5353)
        .write(&mut v, b"dns")
        .unwrap();
    v
}

fn tcp_v6() -> Vec<u8> {
    let mut src = [0u8; 16];
    src[0] = 0x20;
    src[1] = 0x01;
    src[15] = 1;
    let mut dst = [0u8; 16];
    dst[15] = 2;
    let mut v = Vec::new();
    PacketBuilder::ethernet2(SRC_MAC, DST_MAC)
        .ipv6(src, dst, 64)
        .tcp(1, 2, 3, 4)
        .write(&mut v, b"xy")
        .unwrap();
    v
}

#[test]
fn probe_reports_tcp_segments() {
    match extract_headers(&tcp_v4(b"hello")) {
        ProbeOutcome::Segment(f) => {
            assert_eq!(f.segment_length, 5);
            assert_eq!(f.src_ip, IpAddress::V4(u32::from_be_bytes([192, 168, 0, 1])));
            assert_eq!(f.dst_ip, IpAddress::V4(u32::from_be_bytes([10, 0, 0, 7])));
            assert_eq!(f.src_port, 40000);
            assert_eq!(f.dst_port, 443);
        }
        _ => panic!("expected a segment"),
    }
    match extract_headers(&tcp_v6()) {
        ProbeOutcome::Segment(f) => {
            assert_eq!(f.segment_length, 2);
            assert_eq!(f.src_ip, IpAddress::V6(0x2001_0000_0000_0000_0000_0000_0000_0001));
            assert_eq!(f.dst_ip, IpAddress::V6(2));
        }
        _ => panic!("expected a segment"),
    }
}

#[test]
fn probe_skips_and_rejects() {
    assert!(matches!(extract_headers(&udp_v4()), ProbeOutcome::Skipped));
    match extract_headers(&[0u8; 5]) {
        ProbeOutcome::Undecodable(e) => assert!(!e.is_empty()),
        _ => panic!("expected an error"),
    }
}

#[test]
fn hosts_and_kinds() {
    let h = capture_hosts(&udp_v4()).unwrap().unwrap();
    assert_eq!(h.0, IpAddress::V4(u32::from_be_bytes([5, 6, 7, 8])));
    assert_eq!(h.1, IpAddress::V4(u32::from_be_bytes([1, 2, 3, 4])));
    assert_eq!(h.2, 17);
    let h6 = capture_hosts(&tcp_v6()).unwrap().unwrap();
    assert_eq!(h6.2, 6);
    assert!(capture_hosts(&[1, 2, 3]).is_err());
    assert_eq!(classify_frame(&udp_v4()).unwrap(), NetKind::Ipv4);
    assert_eq!(classify_frame(&tcp_v6()).unwrap(), NetKind::Ipv6);
    let mut arp_like = vec![0u8; 14];
    arp_like[12] = 0x12;
    arp_like[13] = 0x34;
    assert_eq!(classify_frame(&arp_like).unwrap(), NetKind::NotIp);
}

#[test]
fn option_counters() {
    let (c, e) = count_frame(&tcp_v4(b"abc"));
    assert!(e.is_none());
    assert_eq!((c.ip_ctr, c.ip_options_ctr, c.tcp_ctr, c.tcp_options_ctr), (1, 0, 1, 0));

    let (c, _) = count_frame(&udp_v4());
    assert_eq!((c.ip_ctr, c.ip_options_ctr, c.tcp_ctr, c.tcp_options_ctr), (1, 0, 0, 0));

    let mut ip = Ipv4Header::new(0, 64, IpNumber::TCP, [1, 1, 1, 1], [2, 2, 2, 2]).unwrap();
    ip.set_options(&[1, 1, 1, 1]).unwrap();
    let mut tcp = TcpHeader::new(10, 20, 1, 100);
    tcp.set_options_raw(&[1, 1, 1, 1]).unwrap();
    let mut v = Vec::new();
    PacketBuilder::ethernet2(SRC_MAC, DST_MAC)
        .ip(IpHeaders::Ipv4(ip, Ipv4Extensions::default()))
        .tcp_header(tcp)
        .write(&mut v, b"p")
        .unwrap();
    let (c, e) = count_frame(&v);
    assert!(e.is_none());
    assert_eq!((c.ip_ctr, c.ip_options_ctr, c.tcp_ctr, c.tcp_options_ctr), (1, 1, 1, 1));

    let (c, e) = count_frame(&[0u8; 3]);
    assert!(e.is_some());
    assert_eq!((c.ip_ctr, c.ip_options_ctr, c.tcp_ctr, c.tcp_options_ctr), (0, 0, 0, 0));
}
