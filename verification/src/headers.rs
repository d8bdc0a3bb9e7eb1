//! Flow keys, and how a raw packet is recognised as one UDP datagram.

use vstd::prelude::*;
use etherparse::IpHeaders;
use crate::bytes_util::{from_be16, read_be16};

verus! {

/// An IP address as a number, most significant byte first.
#[derive(Clone, Copy, Debug, PartialEq, Eq, Hash, Structural)]
pub enum IpAddress {
    V4(u32),
    V6(u128),
}

/// What identifies a UDP flow. Two packets belong to one flow exactly when
/// all five fields are equal.
#[derive(Clone, Copy, Debug, PartialEq, Eq, Hash, Structural)]
pub struct UdpFlowKey {
    pub src_addr: IpAddress,
    pub dst_addr: IpAddress,
    pub src_port: u16,
    pub dst_port: u16,
    pub recv_ack: u32,
}

/// A key by which a table tells flows apart.
pub trait FlowKey: Sized {
    /// Whether two keys name one flow: they are equal.
    fn same_flow(&self, other: &Self) -> (r: bool)
        ensures
            r == (*self == *other),
    ;
}

impl FlowKey for UdpFlowKey {
    fn same_flow(&self, other: &Self) -> (r: bool) {
        *self == *other
    }
}

/// What the IP headers of a packet say, as far as coalescing reads them.
#[derive(Clone, Copy, Debug, PartialEq, Eq, Structural)]
pub struct IpSummary {
    pub src_addr: IpAddress,
    pub dst_addr: IpAddress,
    /// Protocol number of what follows the IP headers.
    pub protocol: u8,
    pub fragmented: bool,
    /// Length of the IP header with its extensions.
    pub header_len: usize,
    /// Length of what follows them, by the header's length field.
    pub payload_len: usize,
}

/// What `etherparse::IpHeaders::from_slice` makes of a packet: the summary of
/// the headers it parsed, or `None` where it reports an error.
pub uninterp spec fn ip_headers_of(packet: Seq<u8>) -> Option<IpSummary>;

/// `etherparse::IpHeaders::from_slice`: parses the IP header and its
/// extensions. The result is the parse of these bytes and of nothing else;
/// the contract gives it its name and claims no more.
#[verifier::external_body]
fn parse_ip_headers(packet: &[u8]) -> (r: Option<IpSummary>)
    ensures
        r == ip_headers_of(packet@),
{
    let (headers, rest) = IpHeaders::from_slice(packet).ok()?;
    let (src, dst) = match &headers {
        IpHeaders::Ipv4(h, _) => (IpAddress::V4(u32::from_be_bytes(h.source)), IpAddress::V4(u32::from_be_bytes(h.destination))),
        IpHeaders::Ipv6(h, _) => (IpAddress::V6(u128::from_be_bytes(h.source)), IpAddress::V6(u128::from_be_bytes(h.destination))),
    };
    let (protocol, fragmented) = (rest.ip_number.0, rest.fragmented);
    Some(IpSummary { src_addr: src, dst_addr: dst, protocol, fragmented, header_len: headers.header_len(), payload_len: rest.payload.len() })
}

/// Protocol number of UDP.
pub const IP_PROTOCOL_UDP: u8 = 17;

/// Length of a UDP header.
pub const UDP_HEADER_LEN: usize = 8;

/// The largest packet whose length the header fields can hold.
pub const MAX_PACKET_LEN: usize = 0xFFFF;

/// A raw inbound packet, with the discriminator that its source gave it.
pub struct Packet {
    pub bytes: Vec<u8>,
    pub recv_ack: u32,
}

/// A packet recognised as one UDP datagram.
#[derive(Clone, Copy, Debug, PartialEq, Eq, Structural)]
pub struct Segment {
    pub key: UdpFlowKey,
    pub ipv6: bool,
    /// Where the UDP header starts.
    pub ip_header_len: usize,
}

impl Segment {
    /// Length of the fixed part of the IP header of this version.
    pub open spec fn min_ip_header_len(&self) -> int {
        if self.ipv6 {
            40
        } else {
            20
        }
    }

    /// Whether the segment can describe a packet of these bytes: the headers
    /// lie within it and its length fits a 16-bit field.
    pub open spec fn fits(&self, bytes: Seq<u8>) -> bool {
        &&& self.min_ip_header_len() <= self.ip_header_len
        &&& self.ip_header_len + UDP_HEADER_LEN <= bytes.len()
        &&& bytes.len() <= MAX_PACKET_LEN
    }

    pub fn check_fits(&self, bytes: &[u8]) -> (r: bool)
        ensures
            r == self.fits(bytes@),
    {
        let min: usize = if self.ipv6 {
            40
        } else {
            20
        };
        min <= self.ip_header_len && bytes.len() <= MAX_PACKET_LEN && self.ip_header_len
            <= bytes.len() && UDP_HEADER_LEN <= bytes.len() - self.ip_header_len
    }
}

/// The segment that a parsed packet is, given the summary of its IP headers:
/// an unfragmented UDP datagram that fills the packet exactly and whose own
/// length field agrees. Anything else is no segment.
pub open spec fn segment_of(bytes: Seq<u8>, recv_ack: u32, ip: IpSummary) -> Option<Segment> {
    let h = ip.header_len as int;
    let ipv6 = ip.src_addr is V6;
    if ip.protocol == IP_PROTOCOL_UDP && !ip.fragmented && (ip.dst_addr is V6) == ipv6 && (if ipv6 {
        40int
    } else {
        20int
    }) <= h && h + UDP_HEADER_LEN <= bytes.len() && bytes.len() <= MAX_PACKET_LEN && h
        + ip.payload_len == bytes.len() && from_be16(bytes[h + 4], bytes[h + 5]) == ip.payload_len {
        Some(
            Segment {
                key: UdpFlowKey {
                    src_addr: ip.src_addr,
                    dst_addr: ip.dst_addr,
                    src_port: from_be16(bytes[h], bytes[h + 1]),
                    dst_port: from_be16(bytes[h + 2], bytes[h + 3]),
                    recv_ack,
                },
                ipv6,
                ip_header_len: ip.header_len,
            },
        )
    } else {
        None
    }
}

/// The segment that a packet is, or `None` where its headers do not parse
/// as one UDP datagram.
pub open spec fn classify_spec(bytes: Seq<u8>, recv_ack: u32) -> Option<Segment> {
    match ip_headers_of(bytes) {
        Some(ip) => segment_of(bytes, recv_ack, ip),
        None => None,
    }
}

/// Derives the segment from the summary of a packet's IP headers.
pub fn segment_from_summary(bytes: &[u8], recv_ack: u32, ip: IpSummary) -> (r: Option<Segment>)
    ensures
        r == segment_of(bytes@, recv_ack, ip),
        r matches Some(s) ==> s.fits(bytes@),
{
    let ipv6 = match ip.src_addr {
        IpAddress::V6(_) => true,
        IpAddress::V4(_) => false,
    };
    let dst_v6 = match ip.dst_addr {
        IpAddress::V6(_) => true,
        IpAddress::V4(_) => false,
    };
    let min: usize = if ipv6 {
        40
    } else {
        20
    };
    let h: usize = ip.header_len;
    if ip.protocol != IP_PROTOCOL_UDP || ip.fragmented || dst_v6 != ipv6 || h < min {
        return None;
    }
    if bytes.len() > MAX_PACKET_LEN || h > bytes.len() || bytes.len() - h < UDP_HEADER_LEN {
        return None;
    }
    if ip.payload_len != bytes.len() - h {
        return None;
    }
    let udp_len: u16 = read_be16(bytes, h + 4);
    if udp_len as usize != ip.payload_len {
        return None;
    }
    let src_port: u16 = read_be16(bytes, h);
    let dst_port: u16 = read_be16(bytes, h + 2);
    Some(
        Segment {
            key: UdpFlowKey { src_addr: ip.src_addr, dst_addr: ip.dst_addr, src_port, dst_port, recv_ack },
            ipv6,
            ip_header_len: h,
        },
    )
}

/// Parses the headers of a packet and derives its segment.
pub fn classify(packet: &Packet) -> (r: Option<Segment>)
    ensures
        r == classify_spec(packet.bytes@, packet.recv_ack),
        r matches Some(s) ==> s.fits(packet.bytes@),
{
    match parse_ip_headers(packet.bytes.as_slice()) {
        Some(ip) => segment_from_summary(packet.bytes.as_slice(), packet.recv_ack, ip),
        None => None,
    }
}

} // verus!
