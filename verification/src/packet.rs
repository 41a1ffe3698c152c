//! Reading captured Ethernet frames at fixed offsets, building frames, and
//! counting transport protocols.

use vstd::prelude::*;
use crate::net::IpAddress;
use crate::text::{chars_equal, to_chars};

verus! {

// ---------------------------------------------------------------------------
// Fixed offsets of an Ethernet frame carrying IPv4
// ---------------------------------------------------------------------------

/// Offset of the IPv4 protocol field in an Ethernet frame.
pub const PROTOCOL_OFFSET: usize = 23;

/// IP protocol number of TCP.
pub const TCP: u8 = 6;

/// IP protocol number of UDP.
pub const UDP: u8 = 17;

/// The big-endian 32-bit number in `data` at `off`.
pub open spec fn be32(data: Seq<u8>, off: int) -> u32 {
    (data[off] as u32 * 0x100_0000 + data[off + 1] as u32 * 0x1_0000 + data[off + 2] as u32 * 0x100
        + data[off + 3] as u32) as u32
}

/// The big-endian 16-bit number in `data` at `off`.
pub open spec fn be16(data: Seq<u8>, off: int) -> u16 {
    (data[off] as u16 * 0x100 + data[off + 1] as u16) as u16
}

fn read_be32(data: &[u8], off: usize) -> (r: u32)
    requires
        off + 4 <= data@.len(),
    ensures
        r == be32(data@, off as int),
{
    let a = data[off] as u32;
    let b = data[off + 1] as u32;
    let c = data[off + 2] as u32;
    let d = data[off + 3] as u32;
    a * 0x100_0000 + b * 0x1_0000 + c * 0x100 + d
}

fn read_be16(data: &[u8], off: usize) -> (r: u16)
    requires
        off + 2 <= data@.len(),
    ensures
        r == be16(data@, off as int),
{
    let a = data[off] as u16;
    let b = data[off + 1] as u16;
    a * 0x100 + b
}

/// Addresses and protocol read from an IPv4 packet in an Ethernet frame.
#[derive(Clone, Copy, Debug, PartialEq, Eq, Structural)]
pub struct PacketFields {
    pub src: IpAddress,
    pub dst: IpAddress,
    pub protocol: u8,
}

/// Reads the source address (bytes 26 to 29), the destination address
/// (bytes 30 to 33) and the protocol (byte 23) of a captured frame.
pub fn packet_handler(data: &[u8]) -> (f: PacketFields)
    requires
        data@.len() >= 34,
    ensures
        f.src == IpAddress::V4(be32(data@, 26)),
        f.dst == IpAddress::V4(be32(data@, 30)),
        f.protocol == data@[23],
{
    PacketFields {
        src: IpAddress::V4(read_be32(data, 26)),
        dst: IpAddress::V4(read_be32(data, 30)),
        protocol: data[PROTOCOL_OFFSET],
    }
}

/// The protocol byte of a frame long enough to hold one, as the counting
/// thread of the multi-threaded counter reads it.
pub fn protocol_of(data: &[u8]) -> (p: Option<u8>)
    ensures
        data@.len() <= 23 ==> p is None,
        data@.len() > 23 ==> p == Some(data@[23]),
{
    if data.len() <= PROTOCOL_OFFSET {
        None
    } else {
        Some(data[PROTOCOL_OFFSET])
    }
}

// ---------------------------------------------------------------------------
// Counting transport protocols
// ---------------------------------------------------------------------------

/// Packets seen per transport protocol.
pub struct ProtocolCounter {
    pub tcp: u32,
    pub udp: u32,
}

impl ProtocolCounter {
    /// No packet seen yet.
    pub fn new() -> (c: ProtocolCounter)
        ensures
            c.tcp == 0,
            c.udp == 0,
    {
        ProtocolCounter { tcp: 0, udp: 0 }
    }

    /// Counts a packet with IP protocol number `protocol`: TCP and UDP are
    /// counted, others are not.
    pub fn record_protocol(&mut self, protocol: u8)
        requires
            protocol == TCP ==> old(self).tcp < i32::MAX,
            protocol == UDP ==> old(self).udp < i32::MAX,
        ensures
            final(self).tcp == old(self).tcp + if protocol == TCP {
                1int
            } else {
                0int
            },
            final(self).udp == old(self).udp + if protocol == UDP {
                1int
            } else {
                0int
            },
    {
        if protocol == TCP {
            self.tcp = self.tcp + 1;
        } else if protocol == UDP {
            self.udp = self.udp + 1;
        }
    }

    /// Counts a captured frame by its protocol byte.
    pub fn count_protocols(&mut self, data: &[u8])
        requires
            data@.len() > 23,
            data@[23] == TCP ==> old(self).tcp < i32::MAX,
            data@[23] == UDP ==> old(self).udp < i32::MAX,
        ensures
            final(self).tcp == old(self).tcp + if data@[23] == TCP {
                1int
            } else {
                0int
            },
            final(self).udp == old(self).udp + if data@[23] == UDP {
                1int
            } else {
                0int
            },
    {
        self.record_protocol(data[PROTOCOL_OFFSET]);
    }

    /// Whether TCP is listed first in the ranking: only when strictly more
    /// TCP than UDP packets were seen.
    pub fn tcp_first(&self) -> (r: bool)
        ensures
            r == (self.tcp > self.udp),
    {
        self.tcp > self.udp
    }
}

// ---------------------------------------------------------------------------
// Ethernet II frames
// ---------------------------------------------------------------------------

/// Length of an Ethernet II header.
pub const ETHERNET_HEADER_LEN: usize = 14;

/// EtherType of IPv4.
pub const ETHERTYPE_IPV4: u16 = 0x0800;

/// EtherType of IPv6.
pub const ETHERTYPE_IPV6: u16 = 0x86dd;

/// Shortest IPv4 header.
pub const IPV4_MIN_LEN: usize = 20;

/// Length of the IPv6 header.
pub const IPV6_MIN_LEN: usize = 40;

/// What the payload of a frame was recognised as.
#[derive(Clone, Copy, Debug, PartialEq, Eq, Structural)]
pub enum NetworkKind {
    /// EtherType IPv4 and room for an IPv4 header.
    Ipv4,
    /// EtherType IPv6 and room for an IPv6 header.
    Ipv6,
    /// EtherType IPv4 or IPv6, but too short for the header.
    Truncated,
    /// Another EtherType.
    Other,
}

/// The header fields of an Ethernet II frame and what its payload is.
pub struct FrameInfo {
    pub destination: Vec<u8>,
    pub source: Vec<u8>,
    pub ethertype: u16,
    pub network: NetworkKind,
}

/// What the payload of a frame with EtherType `ethertype` and a payload of
/// `payload_len` bytes is recognised as.
pub open spec fn network_kind(ethertype: u16, payload_len: int) -> NetworkKind {
    if ethertype == ETHERTYPE_IPV4 {
        if payload_len >= IPV4_MIN_LEN {
            NetworkKind::Ipv4
        } else {
            NetworkKind::Truncated
        }
    } else if ethertype == ETHERTYPE_IPV6 {
        if payload_len >= IPV6_MIN_LEN {
            NetworkKind::Ipv6
        } else {
            NetworkKind::Truncated
        }
    } else {
        NetworkKind::Other
    }
}

/// Reads the header of an Ethernet II frame: destination (bytes 0 to 5),
/// source (bytes 6 to 11), EtherType (bytes 12 and 13, big-endian), and
/// the kind of the payload after byte 14.
pub fn frame_info(frame: &[u8]) -> (info: FrameInfo)
    requires
        frame@.len() >= ETHERNET_HEADER_LEN,
    ensures
        info.destination@ == frame@.subrange(0, 6),
        info.source@ == frame@.subrange(6, 12),
        info.ethertype == be16(frame@, 12),
        info.network == network_kind(info.ethertype, frame@.len() - 14),
{
    let mut destination: Vec<u8> = Vec::new();
    let mut source: Vec<u8> = Vec::new();
    let mut i: usize = 0;
    while i < 6
        invariant
            i <= 6,
            frame@.len() >= 14,
            destination@ == frame@.subrange(0, i as int),
            source@ == frame@.subrange(6, 6 + i),
        decreases 6 - i,
    {
        destination.push(frame[i]);
        source.push(frame[6 + i]);
        i = i + 1;
        assert(destination@ =~= frame@.subrange(0, i as int));
        assert(source@ =~= frame@.subrange(6, 6 + i));
    }
    let ethertype = read_be16(frame, 12);
    let payload_len = frame.len() - ETHERNET_HEADER_LEN;
    let network = if ethertype == ETHERTYPE_IPV4 {
        if payload_len >= IPV4_MIN_LEN {
            NetworkKind::Ipv4
        } else {
            NetworkKind::Truncated
        }
    } else if ethertype == ETHERTYPE_IPV6 {
        if payload_len >= IPV6_MIN_LEN {
            NetworkKind::Ipv6
        } else {
            NetworkKind::Truncated
        }
    } else {
        NetworkKind::Other
    };
    FrameInfo { destination, source, ethertype, network }
}

/// The Ethernet II frame with the given addresses, EtherType and payload.
pub open spec fn frame_spec(dst: Seq<u8>, src: Seq<u8>, ethertype: u16, payload: Seq<u8>) -> Seq<u8> {
    dst + src + seq![(ethertype / 0x100) as u8, (ethertype % 0x100) as u8] + payload
}

/// Builds an Ethernet II frame; see [`frame_spec`].
pub fn build_frame(dst: &[u8], src: &[u8], ethertype: u16, payload: &[u8]) -> (frame: Vec<u8>)
    requires
        dst@.len() == 6,
        src@.len() == 6,
    ensures
        frame@ == frame_spec(dst@, src@, ethertype, payload@),
{
    let mut frame: Vec<u8> = Vec::new();
    let mut i: usize = 0;
    while i < 6
        invariant
            i <= 6,
            dst@.len() == 6,
            frame@ == dst@.take(i as int),
        decreases 6 - i,
    {
        frame.push(dst[i]);
        i = i + 1;
        assert(frame@ =~= dst@.take(i as int));
    }
    let mut j: usize = 0;
    while j < 6
        invariant
            j <= 6,
            dst@.len() == 6,
            src@.len() == 6,
            frame@ == dst@ + src@.take(j as int),
        decreases 6 - j,
    {
        frame.push(src[j]);
        j = j + 1;
        assert(frame@ =~= dst@ + src@.take(j as int));
    }
    frame.push((ethertype / 0x100) as u8);
    frame.push((ethertype % 0x100) as u8);
    let ghost head = frame@;
    let mut k: usize = 0;
    while k < payload.len()
        invariant
            k <= payload@.len(),
            frame@ == head + payload@.take(k as int),
        decreases payload.len() - k,
    {
        frame.push(payload[k]);
        k = k + 1;
        assert(frame@ =~= head + payload@.take(k as int));
    }
    assert(dst@.take(6) =~= dst@);
    assert(src@.take(6) =~= src@);
    assert(payload@.take(payload@.len() as int) =~= payload@);
    assert(frame@ =~= frame_spec(dst@, src@, ethertype, payload@));
    frame
}

/// The frame that the sender transmits: to the broadcast address, from
/// `02:00:00:00:00:01`, EtherType IPv4, payload `Hello, pcap`.
pub fn hello_frame() -> (frame: Vec<u8>)
    ensures
        frame@ == frame_spec(
            seq![0xffu8, 0xff, 0xff, 0xff, 0xff, 0xff],
            seq![0x02u8, 0x00, 0x00, 0x00, 0x00, 0x01],
            ETHERTYPE_IPV4,
            seq![72u8, 101, 108, 108, 111, 44, 32, 112, 99, 97, 112],
        ),
{
    let dst: [u8; 6] = [0xff, 0xff, 0xff, 0xff, 0xff, 0xff];
    let src: [u8; 6] = [0x02, 0x00, 0x00, 0x00, 0x00, 0x01];
    let payload: [u8; 11] = [72, 101, 108, 108, 111, 44, 32, 112, 99, 97, 112];
    assert(dst@ =~= seq![0xffu8, 0xff, 0xff, 0xff, 0xff, 0xff]);
    assert(src@ =~= seq![0x02u8, 0x00, 0x00, 0x00, 0x00, 0x01]);
    assert(payload@ =~= seq![72u8, 101, 108, 108, 111, 44, 32, 112, 99, 97, 112]);
    build_frame(dst.as_slice(), src.as_slice(), ETHERTYPE_IPV4, payload.as_slice())
}

/// Reading back a built frame gives its addresses and EtherType, and
/// recognises its payload by EtherType and length.
pub proof fn law_frame_roundtrip(dst: Seq<u8>, src: Seq<u8>, ethertype: u16, payload: Seq<u8>)
    requires
        dst.len() == 6,
        src.len() == 6,
    ensures
        ({
            let f = frame_spec(dst, src, ethertype, payload);
            &&& f.len() == 14 + payload.len()
            &&& f.subrange(0, 6) == dst
            &&& f.subrange(6, 12) == src
            &&& be16(f, 12) == ethertype
            &&& f.skip(14) == payload
            &&& network_kind(be16(f, 12), f.len() - 14) == network_kind(ethertype, payload.len() as int)
        }),
{
    let f = frame_spec(dst, src, ethertype, payload);
    assert(f.subrange(0, 6) =~= dst);
    assert(f.subrange(6, 12) =~= src);
    assert(f.skip(14) =~= payload);
    assert(f[12] == (ethertype / 0x100) as u8);
    assert(f[13] == (ethertype % 0x100) as u8);
}

// ---------------------------------------------------------------------------
// Interfaces
// ---------------------------------------------------------------------------

/// The position of the first interface named `name` among `names`, if any.
pub fn get_interface(names: &Vec<String>, name: &str) -> (r: Option<usize>)
    ensures
        r matches Some(i) ==> i < names.len() && names@[i as int]@ == name@ && forall|j: int|
            0 <= j < i ==> names@[j]@ != name@,
        r is None ==> forall|j: int| 0 <= j < names.len() ==> names@[j]@ != name@,
{
    let wanted = to_chars(name);
    let mut i: usize = 0;
    while i < names.len()
        invariant
            i <= names.len(),
            wanted@ == name@,
            forall|j: int| 0 <= j < i ==> names@[j]@ != name@,
        decreases names.len() - i,
    {
        let candidate = to_chars(names[i].as_str());
        if chars_equal(&candidate, &wanted) {
            return Some(i);
        }
        i = i + 1;
    }
    None
}

} // verus!
