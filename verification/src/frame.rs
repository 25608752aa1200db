//! Link-layer frame decoding: Ethernet, IPv4/IPv6 and TCP headers, parsed by
//! pnet behind trusted wrappers whose contracts pin each field to the bytes
//! of the frame.

use vstd::prelude::*;
use pnet::packet::Packet;

verus! {

// TCP flag bits, as carried in byte 13 of the TCP header.
pub const TCP_FIN: u8 = 1;
pub const TCP_SYN: u8 = 2;
pub const TCP_RST: u8 = 4;
pub const TCP_PSH: u8 = 8;
pub const TCP_ACK: u8 = 16;
pub const TCP_URG: u8 = 32;

// EtherType values of the two IP versions.
pub const ETHERTYPE_IPV4: u16 = 0x0800;
pub const ETHERTYPE_IPV6: u16 = 0x86DD;

/// IP protocol number of TCP.
pub const IP_PROTO_TCP: u8 = 6;

/// Value of two big-endian bytes.
pub open spec fn be2(b0: u8, b1: u8) -> int {
    0x100 * b0 + b1
}

/// The Ethernet header of one captured frame.
#[derive(Debug, Clone)]
pub struct EthLayer {
    pub src_mac: String,
    pub dst_mac: String,
    pub eth_type: u16,
}

/// The IP header of one captured frame, either version.
#[derive(Debug, Clone)]
pub struct IpLayer {
    pub src_ip: String,
    pub dst_ip: String,
    pub payload: Vec<u8>,
}

/// The TCP header and payload of one captured frame.
#[derive(Debug, Clone)]
pub struct TcpLayer {
    pub src_port: u16,
    pub dst_port: u16,
    pub flags: u8,
    pub payload: Vec<u8>,
}

/// What `MacAddr`'s display form shows for given octets; the result depends
/// on the six octets alone.
pub uninterp spec fn mac_str_of(octets: Seq<u8>) -> Seq<char>;

/// What `Ipv4Addr`'s display form shows for given octets; the result depends
/// on the four octets alone.
pub uninterp spec fn ipv4_str_of(octets: Seq<u8>) -> Seq<char>;

/// What `Ipv6Addr`'s display form shows for given octets; the result depends
/// on the sixteen octets alone.
pub uninterp spec fn ipv6_str_of(octets: Seq<u8>) -> Seq<char>;

/// The IPv4 payload slice: pnet takes the header length from the low nibble
/// of byte 0 (in 4-byte words, at least the 20 fixed bytes), the datagram
/// length from bytes 2 and 3, and clips the payload to the buffer.
pub open spec fn ipv4_payload_of(b: Seq<u8>) -> Seq<u8> {
    let hl4 = 4 * (b[0] & 0x0f);
    let start = if hl4 >= 20 {
        hl4 as int
    } else {
        20
    };
    let total = be2(b[2], b[3]);
    let paylen = if total >= hl4 {
        total - hl4
    } else {
        0
    };
    let end = if start + paylen <= b.len() {
        start + paylen
    } else {
        b.len() as int
    };
    if b.len() <= start {
        Seq::empty()
    } else {
        b.subrange(start, end)
    }
}

/// The IPv6 payload slice: pnet takes the payload length from bytes 4 and 5
/// after the fixed 40-byte header, clipped to the buffer.
pub open spec fn ipv6_payload_of(b: Seq<u8>) -> Seq<u8> {
    let paylen = be2(b[4], b[5]);
    let end = if 40 + paylen <= b.len() {
        40 + paylen
    } else {
        b.len() as int
    };
    if b.len() <= 40 {
        Seq::empty()
    } else {
        b.subrange(40, end)
    }
}

/// The TCP payload slice: pnet takes the data offset from the high nibble of
/// byte 12 (in 4-byte words, at least the 20 fixed bytes) and hands out the
/// rest of the buffer.
pub open spec fn tcp_payload_of(b: Seq<u8>) -> Seq<u8> {
    let data_offset = b[12] >> 4;
    let start = if data_offset > 5 {
        4 * data_offset as int
    } else {
        20
    };
    if b.len() <= start {
        Seq::empty()
    } else {
        b.subrange(start, b.len() as int)
    }
}

/// Relies on pnet's `EthernetPacket`: `new` accepts exactly the buffers of
/// at least 14 bytes; `get_destination` and `get_source` read the MAC
/// addresses at offsets 0 and 6; `get_ethertype` reads the big-endian type
/// at offset 12; `payload` is the rest of the buffer.
#[verifier::external_body]
pub(crate) fn parse_ethernet(frame: &[u8]) -> (r: Option<(EthLayer, Vec<u8>)>)
    ensures
        r is Some <==> frame@.len() >= 14,
        r matches Some((eth, pay)) ==> {
            &&& eth.dst_mac@ == mac_str_of(frame@.subrange(0, 6))
            &&& eth.src_mac@ == mac_str_of(frame@.subrange(6, 12))
            &&& eth.eth_type as int == be2(frame@[12], frame@[13])
            &&& pay@ == frame@.skip(14)
        },
{
    let eth = pnet::packet::ethernet::EthernetPacket::new(frame)?;
    let layer = EthLayer {
        src_mac: eth.get_source().to_string(),
        dst_mac: eth.get_destination().to_string(),
        eth_type: eth.get_ethertype().0,
    };
    Some((layer, eth.payload().to_vec()))
}

/// Relies on pnet's `Ipv4Packet`: `new` accepts exactly the buffers of at
/// least 20 bytes; `get_source` and `get_destination` read the addresses at
/// offsets 12 and 16; `get_next_level_protocol` reads byte 9; `payload`
/// clips as `ipv4_payload_of` describes.
#[verifier::external_body]
pub(crate) fn parse_ipv4(pkt: &[u8]) -> (r: Option<(IpLayer, u8)>)
    ensures
        r is Some <==> pkt@.len() >= 20,
        r matches Some((ip, proto)) ==> {
            &&& ip.src_ip@ == ipv4_str_of(pkt@.subrange(12, 16))
            &&& ip.dst_ip@ == ipv4_str_of(pkt@.subrange(16, 20))
            &&& proto == pkt@[9]
            &&& ip.payload@ == ipv4_payload_of(pkt@)
        },
{
    let ip = pnet::packet::ipv4::Ipv4Packet::new(pkt)?;
    let layer = IpLayer {
        src_ip: ip.get_source().to_string(),
        dst_ip: ip.get_destination().to_string(),
        payload: ip.payload().to_vec(),
    };
    Some((layer, ip.get_next_level_protocol().0))
}

/// Relies on pnet's `Ipv6Packet`: `new` accepts exactly the buffers of at
/// least 40 bytes; `get_source` and `get_destination` read the addresses at
/// offsets 8 and 24; `get_next_header` reads byte 6; `payload` clips as
/// `ipv6_payload_of` describes.
#[verifier::external_body]
pub(crate) fn parse_ipv6(pkt: &[u8]) -> (r: Option<(IpLayer, u8)>)
    ensures
        r is Some <==> pkt@.len() >= 40,
        r matches Some((ip, proto)) ==> {
            &&& ip.src_ip@ == ipv6_str_of(pkt@.subrange(8, 24))
            &&& ip.dst_ip@ == ipv6_str_of(pkt@.subrange(24, 40))
            &&& proto == pkt@[6]
            &&& ip.payload@ == ipv6_payload_of(pkt@)
        },
{
    let ip = pnet::packet::ipv6::Ipv6Packet::new(pkt)?;
    let layer = IpLayer {
        src_ip: ip.get_source().to_string(),
        dst_ip: ip.get_destination().to_string(),
        payload: ip.payload().to_vec(),
    };
    Some((layer, ip.get_next_header().0))
}

/// Relies on pnet's `TcpPacket`: `new` accepts exactly the buffers of at
/// least 20 bytes; `get_source` and `get_destination` read the big-endian
/// ports at offsets 0 and 2; `get_flags` reads byte 13; `payload` starts
/// after the data offset as `tcp_payload_of` describes.
#[verifier::external_body]
pub(crate) fn parse_tcp(seg: &[u8]) -> (r: Option<TcpLayer>)
    ensures
        r is Some <==> seg@.len() >= 20,
        r matches Some(t) ==> {
            &&& t.src_port as int == be2(seg@[0], seg@[1])
            &&& t.dst_port as int == be2(seg@[2], seg@[3])
            &&& t.flags == seg@[13]
            &&& t.payload@ == tcp_payload_of(seg@)
        },
{
    let t = pnet::packet::tcp::TcpPacket::new(seg)?;
    Some(TcpLayer {
        src_port: t.get_source(),
        dst_port: t.get_destination(),
        flags: t.get_flags(),
        payload: t.payload().to_vec(),
    })
}

} // verus!
