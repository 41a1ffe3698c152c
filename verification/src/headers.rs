//! Decoding captured Ethernet frames with `etherparse`, and what the probes
//! and counters take from the decoded headers.

use vstd::prelude::*;
use crate::net::IpAddress;
use etherparse::{NetHeaders, NetSlice, PacketHeaders, PayloadSlice, SlicedPacket, TransportHeader, TransportSlice};

verus! {

// ---------------------------------------------------------------------------
// Decoded headers
// ---------------------------------------------------------------------------

/// The network layer of a frame decoded by
/// `etherparse::PacketHeaders::from_ethernet_slice`, as it holds it.
#[derive(Clone, Copy, Debug)]
pub enum RawNet {
    /// An IPv4 header: source and destination octets, protocol number.
    V4([u8; 4], [u8; 4], u8),
    /// An IPv6 header: source and destination octets, next header.
    V6([u8; 16], [u8; 16], u8),
    /// An ARP packet.
    Arp,
    /// No network layer was decoded.
    Absent,
}

/// What a probe needs of a frame decoded by
/// `etherparse::PacketHeaders::from_ethernet_slice`.
#[derive(Clone, Copy, Debug)]
pub struct HeaderSummary {
    pub net: RawNet,
    /// Source and destination ports when the transport header is TCP.
    pub tcp_ports: Option<(u16, u16)>,
    /// Length of the TCP payload when the payload is a TCP payload.
    pub tcp_payload_len: Option<usize>,
}

/// What `etherparse::PacketHeaders::from_ethernet_slice` makes of `frame`:
/// the decoded headers, or the text of its error.
pub uninterp spec fn ethernet_headers(frame: Seq<u8>) -> Result<HeaderSummary, Seq<char>>;

/// Decodes `frame` from its Ethernet II header down.
///
/// Calls `etherparse::PacketHeaders::from_ethernet_slice` and keeps of its
/// result the IP addresses, the IP protocol or IPv6 next header, the TCP
/// ports and the TCP payload length; an error becomes its `Display` text.
/// The contract names that result [`ethernet_headers`] and says nothing
/// more of it.
#[verifier::external_body]
fn decode_headers(frame: &[u8]) -> (r: Result<HeaderSummary, String>)
    ensures
        match r {
            Ok(h) => ethernet_headers(frame@) == Ok::<HeaderSummary, Seq<char>>(h),
            Err(e) => ethernet_headers(frame@) == Err::<HeaderSummary, Seq<char>>(e@),
        },
{
    match PacketHeaders::from_ethernet_slice(frame) {
        Err(e) => Err(e.to_string()),
        Ok(h) => Ok(HeaderSummary {
            net: match h.net {
                Some(NetHeaders::Ipv4(ip, _)) => RawNet::V4(ip.source, ip.destination, ip.protocol.0),
                Some(NetHeaders::Ipv6(ip, _)) => RawNet::V6(ip.source, ip.destination, ip.next_header.0),
                Some(NetHeaders::Arp(_)) => RawNet::Arp,
                None => RawNet::Absent,
            },
            tcp_ports: match h.transport { Some(TransportHeader::Tcp(t)) => Some((t.source_port, t.destination_port)), _ => None },
            tcp_payload_len: match h.payload { PayloadSlice::Tcp(p) => Some(p.len()), _ => None },
        }),
    }
}

/// The big-endian value of the bytes `s`.
pub open spec fn be_value(s: Seq<u8>) -> nat
    decreases s.len(),
{
    if s.len() == 0 {
        0
    } else {
        be_value(s.drop_last()) * 256 + s.last() as nat
    }
}

/// 256 to the power `n`.
pub open spec fn pow256(n: nat) -> nat
    decreases n,
{
    if n == 0 {
        1
    } else {
        pow256((n - 1) as nat) * 256
    }
}

proof fn lemma_be_value_step(v: nat, p: nat, b: u8)
    by (nonlinear_arith)
    requires
        v < p,
    ensures
        v * 256 + b < p * 256,
{
}

/// The address that `Ipv4Addr::from` makes of four octets.
pub open spec fn ipv4_of(octets: Seq<u8>) -> IpAddress {
    IpAddress::V4(be_value(octets) as u32)
}

/// The address that `Ipv6Addr::from` makes of sixteen octets.
pub open spec fn ipv6_of(octets: Seq<u8>) -> IpAddress {
    IpAddress::V6(be_value(octets) as u128)
}

/// An IPv4 address is the number whose base-256 digits are its four
/// octets, the first octet the most significant.
pub proof fn law_ipv4_octets(o: [u8; 4])
    ensures
        ipv4_of(o@) == IpAddress::V4(
            (o[0] as int * 0x100_0000 + o[1] as int * 0x1_0000 + o[2] as int * 0x100 + o[3] as int) as u32,
        ),
{
    reveal_with_fuel(be_value, 5);
    assert(o@.drop_last() =~= seq![o[0], o[1], o[2]]);
    assert(seq![o[0], o[1], o[2]].drop_last() =~= seq![o[0], o[1]]);
    assert(seq![o[0], o[1]].drop_last() =~= seq![o[0]]);
    assert(seq![o[0]].drop_last() =~= Seq::<u8>::empty());
}

/// An IPv6 address is the number whose base-256 digits are its sixteen
/// octets, the first octet the most significant.
pub proof fn law_ipv6_octets(o: [u8; 16])
    ensures
        ipv6_of(o@) == IpAddress::V6(
            (o[0] as int * 0x100_0000_0000_0000_0000_0000_0000_0000
                + o[1] as int * 0x1_0000_0000_0000_0000_0000_0000_0000
                + o[2] as int * 0x100_0000_0000_0000_0000_0000_0000
                + o[3] as int * 0x1_0000_0000_0000_0000_0000_0000
                + o[4] as int * 0x100_0000_0000_0000_0000_0000
                + o[5] as int * 0x1_0000_0000_0000_0000_0000
                + o[6] as int * 0x100_0000_0000_0000_0000
                + o[7] as int * 0x1_0000_0000_0000_0000
                + o[8] as int * 0x100_0000_0000_0000
                + o[9] as int * 0x1_0000_0000_0000
                + o[10] as int * 0x100_0000_0000
                + o[11] as int * 0x1_0000_0000
                + o[12] as int * 0x100_0000
                + o[13] as int * 0x1_0000
                + o[14] as int * 0x100
                + o[15] as int) as u128,
        ),
{
    reveal_with_fuel(be_value, 17);
    assert(o@ =~= o@.take(16));
    assert(o@.take(16).drop_last() =~= o@.take(15));
    assert(o@.take(15).drop_last() =~= o@.take(14));
    assert(o@.take(14).drop_last() =~= o@.take(13));
    assert(o@.take(13).drop_last() =~= o@.take(12));
    assert(o@.take(12).drop_last() =~= o@.take(11));
    assert(o@.take(11).drop_last() =~= o@.take(10));
    assert(o@.take(10).drop_last() =~= o@.take(9));
    assert(o@.take(9).drop_last() =~= o@.take(8));
    assert(o@.take(8).drop_last() =~= o@.take(7));
    assert(o@.take(7).drop_last() =~= o@.take(6));
    assert(o@.take(6).drop_last() =~= o@.take(5));
    assert(o@.take(5).drop_last() =~= o@.take(4));
    assert(o@.take(4).drop_last() =~= o@.take(3));
    assert(o@.take(3).drop_last() =~= o@.take(2));
    assert(o@.take(2).drop_last() =~= o@.take(1));
    assert(o@.take(1).drop_last() =~= o@.take(0));
}

/// The big-endian number of at most sixteen bytes.
fn be_number(s: &[u8]) -> (r: u128)
    requires
        s@.len() <= 16,
    ensures
        r == be_value(s@),
{
    proof {
        reveal_with_fuel(pow256, 17);
        assert(pow256(16) == 0x1_0000_0000_0000_0000_0000_0000_0000_0000);
    }
    let mut acc: u128 = 0;
    let mut i: usize = 0;
    while i < s.len()
        invariant
            i <= s@.len() <= 16,
            acc == be_value(s@.take(i as int)),
            be_value(s@.take(i as int)) < pow256(i as nat),
            pow256(i as nat) <= pow256(16),
            pow256(16) == 0x1_0000_0000_0000_0000_0000_0000_0000_0000,
        decreases s.len() - i,
    {
        assert(s@.take(i + 1).drop_last() =~= s@.take(i as int));
        proof {
            lemma_be_value_step(be_value(s@.take(i as int)), pow256(i as nat), s@[i as int]);
            lemma_pow256_mono((i + 1) as nat, 16);
        }
        acc = acc * 256 + s[i] as u128;
        i = i + 1;
    }
    assert(s@.take(s.len() as int) =~= s@);
    acc
}

proof fn lemma_pow256_mono(a: nat, b: nat)
    requires
        a <= b,
    ensures
        pow256(a) <= pow256(b),
    decreases b,
{
    if a < b {
        lemma_pow256_mono(a, (b - 1) as nat);
    }
}

/// The network layer of a decoded frame, with its addresses.
#[derive(Clone, Copy, Debug, PartialEq, Eq, Structural)]
pub enum NetHeader {
    /// An IPv4 or IPv6 header: addresses and the protocol of the payload
    /// (the IPv6 next header).
    Ip { src: IpAddress, dst: IpAddress, protocol: u8 },
    /// An ARP packet.
    Arp,
    /// No network layer was decoded.
    Absent,
}

/// The network layer with its octets read as addresses.
pub open spec fn net_spec(n: RawNet) -> NetHeader {
    match n {
        RawNet::V4(s, d, p) => NetHeader::Ip { src: ipv4_of(s@), dst: ipv4_of(d@), protocol: p },
        RawNet::V6(s, d, p) => NetHeader::Ip { src: ipv6_of(s@), dst: ipv6_of(d@), protocol: p },
        RawNet::Arp => NetHeader::Arp,
        RawNet::Absent => NetHeader::Absent,
    }
}

/// Reads the addresses of a decoded network layer; see [`net_spec`].
pub fn net_header(n: &RawNet) -> (r: NetHeader)
    ensures
        r == net_spec(*n),
{
    match n {
        RawNet::V4(s, d, p) => NetHeader::Ip {
            src: IpAddress::V4(be_number(s.as_slice()) as u32),
            dst: IpAddress::V4(be_number(d.as_slice()) as u32),
            protocol: *p,
        },
        RawNet::V6(s, d, p) => NetHeader::Ip {
            src: IpAddress::V6(be_number(s.as_slice())),
            dst: IpAddress::V6(be_number(d.as_slice())),
            protocol: *p,
        },
        RawNet::Arp => NetHeader::Arp,
        RawNet::Absent => NetHeader::Absent,
    }
}

/// A TCP segment as the probe reports it to the collector.
#[derive(Clone, Copy, Debug, PartialEq, Eq, Structural)]
pub struct Flow {
    pub segment_length: usize,
    pub src_ip: IpAddress,
    pub dst_ip: IpAddress,
    pub src_port: u16,
    pub dst_port: u16,
}

/// The segment a probe reports for decoded headers: only IP frames that
/// carry TCP with a TCP payload give one.
pub open spec fn flow_spec(h: HeaderSummary) -> Option<Flow> {
    match net_spec(h.net) {
        NetHeader::Ip { src, dst, protocol: _ } => match h.tcp_ports {
            Some((sp, dp)) => match h.tcp_payload_len {
                Some(len) => Some(
                    Flow { segment_length: len, src_ip: src, dst_ip: dst, src_port: sp, dst_port: dp },
                ),
                None => None,
            },
            None => None,
        },
        _ => None,
    }
}

/// The segment of decoded headers; see [`flow_spec`].
pub fn flow_of_headers(h: &HeaderSummary) -> (f: Option<Flow>)
    ensures
        f == flow_spec(*h),
{
    match net_header(&h.net) {
        NetHeader::Ip { src, dst, protocol: _ } => match h.tcp_ports {
            Some((sp, dp)) => match h.tcp_payload_len {
                Some(len) => Some(
                    Flow { segment_length: len, src_ip: src, dst_ip: dst, src_port: sp, dst_port: dp },
                ),
                None => None,
            },
            None => None,
        },
        _ => None,
    }
}

/// What a probe makes of one captured frame.
pub enum ProbeOutcome {
    /// The frame could not be decoded; the decoder's message.
    Undecodable(String),
    /// Not an IP frame carrying a TCP payload.
    Skipped,
    /// The segment to report.
    Segment(Flow),
}

/// Decodes a captured frame and extracts the TCP segment to report.
pub fn extract_headers(frame: &[u8]) -> (o: ProbeOutcome)
    ensures
        match (o, ethernet_headers(frame@)) {
            (ProbeOutcome::Undecodable(e), Err(t)) => e@ == t,
            (ProbeOutcome::Skipped, Ok(h)) => flow_spec(h) is None,
            (ProbeOutcome::Segment(f), Ok(h)) => flow_spec(h) == Some(f),
            _ => false,
        },
{
    match decode_headers(frame) {
        Err(e) => ProbeOutcome::Undecodable(e),
        Ok(h) => match flow_of_headers(&h) {
            Some(f) => ProbeOutcome::Segment(f),
            None => ProbeOutcome::Skipped,
        },
    }
}

/// What the flow counter takes of an IP frame: destination, source and
/// protocol (the IPv6 next header for IPv6).
pub open spec fn hosts_spec(h: HeaderSummary) -> Option<(IpAddress, IpAddress, u8)> {
    match net_spec(h.net) {
        NetHeader::Ip { src, dst, protocol } => Some((dst, src, protocol)),
        _ => None,
    }
}

/// The hosts and protocol of decoded headers; see [`hosts_spec`].
pub fn hosts_of_headers(h: &HeaderSummary) -> (r: Option<(IpAddress, IpAddress, u8)>)
    ensures
        r == hosts_spec(*h),
{
    match net_header(&h.net) {
        NetHeader::Ip { src, dst, protocol } => Some((dst, src, protocol)),
        _ => None,
    }
}

/// Decodes a captured frame and takes its hosts and protocol; an
/// undecodable frame gives the decoder's message.
pub fn capture_hosts(frame: &[u8]) -> (r: Result<Option<(IpAddress, IpAddress, u8)>, String>)
    ensures
        match (r, ethernet_headers(frame@)) {
            (Ok(x), Ok(h)) => x == hosts_spec(h),
            (Err(e), Err(t)) => e@ == t,
            _ => false,
        },
{
    match decode_headers(frame) {
        Err(e) => Err(e),
        Ok(h) => Ok(hosts_of_headers(&h)),
    }
}

/// The network layer of a frame, as the header printer tells it apart.
#[derive(Clone, Copy, Debug, PartialEq, Eq, Structural)]
pub enum NetKind {
    Ipv4,
    Ipv6,
    NotIp,
}

/// Which network layer decoded headers hold.
pub open spec fn net_kind_spec(h: HeaderSummary) -> NetKind {
    match h.net {
        RawNet::V4(..) => NetKind::Ipv4,
        RawNet::V6(..) => NetKind::Ipv6,
        _ => NetKind::NotIp,
    }
}

/// Which network layer decoded headers hold; see [`net_kind_spec`].
pub fn net_kind_of(h: &HeaderSummary) -> (k: NetKind)
    ensures
        k == net_kind_spec(*h),
{
    match h.net {
        RawNet::V4(..) => NetKind::Ipv4,
        RawNet::V6(..) => NetKind::Ipv6,
        _ => NetKind::NotIp,
    }
}

/// Decodes a captured frame and tells its network layer; an undecodable
/// frame gives the decoder's message.
pub fn classify_frame(frame: &[u8]) -> (r: Result<NetKind, String>)
    ensures
        match (r, ethernet_headers(frame@)) {
            (Ok(k), Ok(h)) => k == net_kind_spec(h),
            (Err(e), Err(t)) => e@ == t,
            _ => false,
        },
{
    match decode_headers(frame) {
        Err(e) => Err(e),
        Ok(h) => Ok(net_kind_of(&h)),
    }
}

// ---------------------------------------------------------------------------
// Sliced frames
// ---------------------------------------------------------------------------

/// The network layer of a sliced frame, with what the option counters look
/// at.
#[derive(Clone, Copy, Debug, PartialEq, Eq, Structural)]
pub enum SliceNet {
    /// IPv4, with the length of its options.
    Ipv4 { options_len: usize },
    /// IPv6, with whether it has no extension headers.
    Ipv6 { extensions_empty: bool },
    /// ARP.
    Arp,
    /// No network layer.
    Absent,
}

/// What the option counters need of a frame sliced by
/// `etherparse::SlicedPacket::from_ethernet`.
#[derive(Clone, Copy, Debug, PartialEq, Eq, Structural)]
pub struct SliceSummary {
    pub net: SliceNet,
    /// The number of items of the TCP options iterator, when the transport
    /// layer is TCP.
    pub tcp_option_items: Option<usize>,
}

/// What `etherparse::SlicedPacket::from_ethernet` makes of `frame`: the
/// slices, or the `Debug` text of its error.
pub uninterp spec fn ethernet_slices(frame: Seq<u8>) -> Result<SliceSummary, Seq<char>>;

/// Slices `frame` from its Ethernet II header down.
///
/// Calls `etherparse::SlicedPacket::from_ethernet` and keeps of its result
/// the length of the IPv4 options, whether the IPv6 extensions are empty,
/// and the number of items that the TCP options iterator yields; an error
/// becomes its `Debug` text. The contract names that result
/// [`ethernet_slices`] and says nothing more of it.
#[verifier::external_body]
fn slice_frame(frame: &[u8]) -> (r: Result<SliceSummary, String>)
    ensures
        match r {
            Ok(s) => ethernet_slices(frame@) == Ok::<SliceSummary, Seq<char>>(s),
            Err(e) => ethernet_slices(frame@) == Err::<SliceSummary, Seq<char>>(e@),
        },
{
    match SlicedPacket::from_ethernet(frame) {
        Err(e) => Err(format!("{:?}", e)),
        Ok(p) => Ok(SliceSummary {
            net: match &p.net {
                Some(NetSlice::Ipv4(ip)) => SliceNet::Ipv4 { options_len: ip.header().options().len() },
                Some(NetSlice::Ipv6(ip)) => SliceNet::Ipv6 { extensions_empty: ip.extensions().is_empty() },
                Some(NetSlice::Arp(_)) => SliceNet::Arp,
                None => SliceNet::Absent,
            },
            tcp_option_items: match &p.transport { Some(TransportSlice::Tcp(t)) => Some(t.options_iterator().count()), _ => None },
        }),
    }
}

/// Per-packet counters that the processors send to the statistics thread.
#[derive(Clone, Copy, Debug, PartialEq, Eq, Structural)]
pub struct Counters {
    pub ip_ctr: i32,
    pub tcp_ctr: i32,
    pub tcp_options_ctr: i32,
    pub ip_options_ctr: i32,
}

/// The counters of one sliced frame: an IP packet counts once, and once
/// more when it has IPv4 options or IPv6 extension headers; a TCP segment
/// counts once, and once more when it has options. A frame that could not
/// be sliced counts nothing.
pub open spec fn counters_spec(s: Result<SliceSummary, Seq<char>>) -> Counters {
    match s {
        Err(_) => Counters { ip_ctr: 0, tcp_ctr: 0, tcp_options_ctr: 0, ip_options_ctr: 0 },
        Ok(p) => {
            let (ip, ipo) = match p.net {
                SliceNet::Ipv4 { options_len } => (1i32, if options_len != 0 {
                    1i32
                } else {
                    0i32
                }),
                SliceNet::Ipv6 { extensions_empty } => (1i32, if !extensions_empty {
                    1i32
                } else {
                    0i32
                }),
                _ => (0i32, 0i32),
            };
            let (tcp, tcpo) = match p.tcp_option_items {
                Some(n) => (1i32, if n != 0 {
                    1i32
                } else {
                    0i32
                }),
                None => (0i32, 0i32),
            };
            Counters { ip_ctr: ip, tcp_ctr: tcp, tcp_options_ctr: tcpo, ip_options_ctr: ipo }
        },
    }
}

/// The counters of a slicing result; see [`counters_spec`].
pub fn counters_of(s: &Result<SliceSummary, String>) -> (c: Counters)
    ensures
        c == counters_spec(
            match s {
                Ok(p) => Ok::<SliceSummary, Seq<char>>(*p),
                Err(e) => Err::<SliceSummary, Seq<char>>(e@),
            },
        ),
{
    let mut ip_ctr: i32 = 0;
    let mut tcp_ctr: i32 = 0;
    let mut tcp_options_ctr: i32 = 0;
    let mut ip_options_ctr: i32 = 0;
    match s {
        Err(_) => {},
        Ok(p) => {
            match p.net {
                SliceNet::Ipv4 { options_len } => {
                    ip_ctr = 1;
                    if options_len != 0 {
                        ip_options_ctr = 1;
                    }
                },
                SliceNet::Ipv6 { extensions_empty } => {
                    ip_ctr = 1;
                    if !extensions_empty {
                        ip_options_ctr = 1;
                    }
                },
                _ => {},
            }
            match p.tcp_option_items {
                Some(n) => {
                    tcp_ctr = 1;
                    if n != 0 {
                        tcp_options_ctr = 1;
                    }
                },
                None => {},
            }
        },
    }
    Counters { ip_ctr, tcp_ctr, tcp_options_ctr, ip_options_ctr }
}

/// Slices a captured frame and counts it; an unsliceable frame also gives
/// the slicer's message.
pub fn count_frame(frame: &[u8]) -> (r: (Counters, Option<String>))
    ensures
        r.0 == counters_spec(ethernet_slices(frame@)),
        match (r.1, ethernet_slices(frame@)) {
            (Some(e), Err(t)) => e@ == t,
            (None, Ok(_)) => true,
            _ => false,
        },
{
    let s = slice_frame(frame);
    let c = counters_of(&s);
    match s {
        Err(e) => (c, Some(e)),
        Ok(_) => (c, None),
    }
}

// ---------------------------------------------------------------------------
// Laws
// ---------------------------------------------------------------------------

/// A probe reports a segment exactly for an IPv4 or IPv6 frame that carries
/// a TCP header and a TCP payload; the segment's source and destination
/// are the IP header's source and destination addresses, its ports the TCP
/// header's source and destination ports in that order, and its length the
/// length of the TCP payload, whatever the IP version.
pub proof fn law_flow_fields(h: HeaderSummary)
    ensures
        flow_spec(h) is Some <==> ((h.net is V4 || h.net is V6) && h.tcp_ports is Some
            && h.tcp_payload_len is Some),
        flow_spec(h) is Some ==> ({
            let f = flow_spec(h)->Some_0;
            &&& f.src_port == h.tcp_ports->Some_0.0
            &&& f.dst_port == h.tcp_ports->Some_0.1
            &&& f.segment_length == h.tcp_payload_len->Some_0
            &&& match h.net {
                RawNet::V4(s, d, _) => f.src_ip == ipv4_of(s@) && f.dst_ip == ipv4_of(d@),
                RawNet::V6(s, d, _) => f.src_ip == ipv6_of(s@) && f.dst_ip == ipv6_of(d@),
                _ => false,
            }
        }),
{
}

/// The flow counter takes of an IP frame its destination address first,
/// then its source address, then its protocol (the next header for IPv6),
/// for IPv4 and IPv6 alike; ARP and frames without a network layer give
/// nothing.
pub proof fn law_hosts_destination_first(h: HeaderSummary)
    ensures
        match h.net {
            RawNet::V4(s, d, p) => hosts_spec(h) == Some((ipv4_of(d@), ipv4_of(s@), p)),
            RawNet::V6(s, d, p) => hosts_spec(h) == Some((ipv6_of(d@), ipv6_of(s@), p)),
            _ => hosts_spec(h) is None,
        },
{
}

/// The hosts of a reported segment are its destination and source, in
/// that order.
pub proof fn law_hosts_of_segment(h: HeaderSummary)
    requires
        flow_spec(h) is Some,
    ensures
        hosts_spec(h) is Some,
        hosts_spec(h)->Some_0.0 == flow_spec(h)->Some_0.dst_ip,
        hosts_spec(h)->Some_0.1 == flow_spec(h)->Some_0.src_ip,
{
}

/// A frame is told apart as IPv4 exactly when an IPv4 header was decoded,
/// as IPv6 exactly when an IPv6 header was decoded, and as not IP exactly
/// when an ARP packet or no network layer was; it is not IP exactly when
/// the flow counter takes no hosts of it.
pub proof fn law_net_kind(h: HeaderSummary)
    ensures
        (net_kind_spec(h) == NetKind::Ipv4) <==> h.net is V4,
        (net_kind_spec(h) == NetKind::Ipv6) <==> h.net is V6,
        (net_kind_spec(h) == NetKind::NotIp) <==> (h.net is Arp || h.net is Absent),
        (net_kind_spec(h) == NetKind::NotIp) <==> hosts_spec(h) is None,
{
}

/// What each counter of a sliced frame holds: the IP counter is 1 exactly
/// for an IPv4 or IPv6 packet; the IP-options counter is 1 exactly for an
/// IPv4 packet with options or an IPv6 packet with extension headers; the
/// TCP counter is 1 exactly for a TCP segment, and the TCP-options counter
/// exactly for one whose options iterator yields an item. A frame that
/// could not be sliced counts nothing.
pub proof fn law_counters_fields(s: Result<SliceSummary, Seq<char>>)
    ensures
        match s {
            Err(_) => counters_spec(s) == Counters {
                ip_ctr: 0,
                tcp_ctr: 0,
                tcp_options_ctr: 0,
                ip_options_ctr: 0,
            },
            Ok(p) => {
                let c = counters_spec(s);
                &&& (c.ip_ctr == 1 <==> (p.net is Ipv4 || p.net is Ipv6))
                &&& (c.ip_ctr == 0 <==> (p.net is Arp || p.net is Absent))
                &&& match p.net {
                    SliceNet::Ipv4 { options_len } => (c.ip_options_ctr == 1 <==> options_len > 0)
                        && (c.ip_options_ctr == 0 <==> options_len == 0),
                    SliceNet::Ipv6 { extensions_empty } => (c.ip_options_ctr == 1 <==> !extensions_empty)
                        && (c.ip_options_ctr == 0 <==> extensions_empty),
                    _ => c.ip_options_ctr == 0,
                }
                &&& (c.tcp_ctr == 1 <==> p.tcp_option_items is Some)
                &&& (c.tcp_ctr == 0 <==> p.tcp_option_items is None)
                &&& (c.tcp_options_ctr == 1 <==> (p.tcp_option_items is Some && p.tcp_option_items->Some_0 > 0))
                &&& (c.tcp_options_ctr == 0 <==> (p.tcp_option_items is None || p.tcp_option_items->Some_0 == 0))
            },
        },
{
}

/// An option is only counted on a packet or segment that is counted: no
/// counter of a frame exceeds 1, and the IP-options and TCP-options
/// counters never exceed the IP and TCP counters.
pub proof fn law_counters_bounded(s: Result<SliceSummary, Seq<char>>)
    ensures
        0 <= counters_spec(s).ip_options_ctr <= counters_spec(s).ip_ctr <= 1,
        0 <= counters_spec(s).tcp_options_ctr <= counters_spec(s).tcp_ctr <= 1,
{
}

} // verus!
