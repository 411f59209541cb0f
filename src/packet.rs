//! The link and network headers at the front of a sampled frame.

use vstd::prelude::*;
use crate::reader::{be16, be32, be128, Reader};
use crate::sflow::{mac_at, mac_from_parts, IpAddress, RawPacket};

verus! {

/// Header protocol of a raw packet record that holds an Ethernet frame.
pub const ETHERNET_PROTOCOL: u32 = 1;
/// Ethertype of an 802.1Q tag.
pub const VLAN_ETHERTYPE: u16 = 0x8100;
pub const IPV4_ETHERTYPE: u16 = 0x0800;
pub const IPV6_ETHERTYPE: u16 = 0x86DD;

/// The network protocols that an ethertype can announce.
#[derive(Debug, Clone, Copy, PartialEq, Eq, Structural)]
pub enum EtherType {
    Ipv4,
    Ipv6,
    Unknown,
}

pub open spec fn spec_ether_type(v: u32) -> EtherType {
    if v == IPV4_ETHERTYPE as u32 {
        EtherType::Ipv4
    } else if v == IPV6_ETHERTYPE as u32 {
        EtherType::Ipv6
    } else {
        EtherType::Unknown
    }
}

impl EtherType {
    pub fn from_u32(v: u32) -> (r: EtherType)
        ensures
            r == spec_ether_type(v),
    {
        if v == 0x0800 {
            EtherType::Ipv4
        } else if v == 0x86DD {
            EtherType::Ipv6
        } else {
            EtherType::Unknown
        }
    }

    /// The ethertype value; zero for an unknown protocol.
    pub fn code(&self) -> (r: u32)
        ensures
            r == match *self {
                EtherType::Ipv4 => 0x0800u32,
                EtherType::Ipv6 => 0x86DDu32,
                EtherType::Unknown => 0u32,
            },
    {
        match self {
            EtherType::Ipv4 => 0x0800,
            EtherType::Ipv6 => 0x86DD,
            EtherType::Unknown => 0,
        }
    }

    /// A short human-readable name.
    pub fn name(&self) -> (r: &'static str)
        ensures
            r@ == match *self {
                EtherType::Ipv4 => "IPv4"@,
                EtherType::Ipv6 => "IPv6"@,
                EtherType::Unknown => "Unknown"@,
            },
    {
        match self {
            EtherType::Ipv4 => "IPv4",
            EtherType::Ipv6 => "IPv6",
            EtherType::Unknown => "Unknown",
        }
    }
}

/// What the front of a sampled frame says. Fields whose bytes the frame
/// does not hold are zero (`None` for the VLAN).
#[derive(Debug, Clone, Copy, PartialEq, Eq, Structural)]
pub struct PacketHeader {
    pub dst_mac: u64,
    pub src_mac: u64,
    /// The ethertype, past an 802.1Q tag if there is one.
    pub ethertype: u16,
    /// The VLAN id of an 802.1Q tag.
    pub vlan: Option<u16>,
    /// The IP protocol (IPv4) or next header (IPv6).
    pub ip_protocol: u8,
    pub src_addr: IpAddress,
    pub dst_addr: IpAddress,
}

/// The network part of a header: IP protocol, source and destination of
/// the packet starting at offset `o` of `h`, under ethertype `et`.
pub open spec fn spec_network(h: Seq<u8>, o: int, et: u16) -> (u8, IpAddress, IpAddress) {
    let n = h.len();
    if spec_ether_type(et as u32) == EtherType::Ipv4 {
        (
            if n >= o + 10 { h[o + 9] } else { 0 },
            if n >= o + 16 { IpAddress::V4(be32(h, o + 12)) } else { IpAddress::V4(0) },
            if n >= o + 20 { IpAddress::V4(be32(h, o + 16)) } else { IpAddress::V4(0) },
        )
    } else if spec_ether_type(et as u32) == EtherType::Ipv6 {
        (
            if n >= o + 7 { h[o + 6] } else { 0 },
            if n >= o + 24 { IpAddress::V6(be128(h, o + 8)) } else { IpAddress::V6(0) },
            if n >= o + 40 { IpAddress::V6(be128(h, o + 24)) } else { IpAddress::V6(0) },
        )
    } else {
        (0, IpAddress::V4(0), IpAddress::V4(0))
    }
}

/// The header of the frame whose first bytes are `h`, `protocol` being the
/// raw packet record's header protocol. Only Ethernet is read; one 802.1Q
/// tag is stepped over, its 12-bit VLAN id kept.
pub open spec fn spec_packet_header(protocol: u32, h: Seq<u8>) -> PacketHeader {
    let n = h.len();
    if protocol != ETHERNET_PROTOCOL {
        PacketHeader {
            dst_mac: 0,
            src_mac: 0,
            ethertype: 0,
            vlan: None,
            ip_protocol: 0,
            src_addr: IpAddress::V4(0),
            dst_addr: IpAddress::V4(0),
        }
    } else {
        let outer: u16 = if n >= 14 { be16(h, 12) } else { 0 };
        let tagged = outer == VLAN_ETHERTYPE;
        let ethertype: u16 = if !tagged { outer } else if n >= 18 { be16(h, 16) } else { 0 };
        let net = spec_network(h, if tagged { 18 } else { 14 }, ethertype);
        PacketHeader {
            dst_mac: if n >= 6 { mac_at(h, 0) } else { 0 },
            src_mac: if n >= 12 { mac_at(h, 6) } else { 0 },
            ethertype,
            vlan: if tagged && n >= 16 { Some((be16(h, 14) % 4096) as u16) } else { None },
            ip_protocol: net.0,
            src_addr: net.1,
            dst_addr: net.2,
        }
    }
}

fn byte_at(h: &[u8], p: usize) -> (r: Option<u8>)
    ensures
        r == if p < h@.len() { Some(h@[p as int]) } else { None::<u8> },
{
    if p < h.len() {
        Some(h[p])
    } else {
        None
    }
}

fn u16_at(h: &[u8], p: usize) -> (r: Option<u16>)
    requires
        p <= 64,
    ensures
        r == if p + 2 <= h@.len() { Some(be16(h@, p as int)) } else { None::<u16> },
{
    if h.len() < p + 2 {
        return None;
    }
    let mut r = Reader::new(&h[p..p + 2]);
    match r.read_u16() {
        Ok(v) => Some(v),
        Err(_) => None,
    }
}

fn u32_at(h: &[u8], p: usize) -> (r: Option<u32>)
    requires
        p <= 64,
    ensures
        r == if p + 4 <= h@.len() { Some(be32(h@, p as int)) } else { None::<u32> },
{
    if h.len() < p + 4 {
        return None;
    }
    let mut r = Reader::new(&h[p..p + 4]);
    match r.read_u32() {
        Ok(v) => Some(v),
        Err(_) => None,
    }
}

fn u128_at(h: &[u8], p: usize) -> (r: Option<u128>)
    requires
        p <= 64,
    ensures
        r == if p + 16 <= h@.len() { Some(be128(h@, p as int)) } else { None::<u128> },
{
    if h.len() < p + 16 {
        return None;
    }
    let mut r = Reader::new(&h[p..p + 16]);
    match r.read_u128() {
        Ok(v) => Some(v),
        Err(_) => None,
    }
}

fn mac_or_zero(h: &[u8], p: usize) -> (r: u64)
    requires
        p <= 32,
    ensures
        r == if p + 6 <= h@.len() { mac_at(h@, p as int) } else { 0 },
{
    match (u16_at(h, p), u32_at(h, p + 2)) {
        (Some(hi), Some(lo)) => mac_from_parts(hi, lo),
        _ => 0,
    }
}

fn parse_network(h: &[u8], o: usize, et: u16) -> (r: (u8, IpAddress, IpAddress))
    requires
        o <= 18,
    ensures
        r == spec_network(h@, o as int, et),
{
    match EtherType::from_u32(et as u32) {
        EtherType::Ipv4 => {
            let proto = match byte_at(h, o + 9) {
                Some(b) => b,
                None => 0,
            };
            let src = match u32_at(h, o + 12) {
                Some(a) => IpAddress::V4(a),
                None => IpAddress::V4(0),
            };
            let dst = match u32_at(h, o + 16) {
                Some(a) => IpAddress::V4(a),
                None => IpAddress::V4(0),
            };
            (proto, src, dst)
        },
        EtherType::Ipv6 => {
            let next = match byte_at(h, o + 6) {
                Some(b) => b,
                None => 0,
            };
            let src = match u128_at(h, o + 8) {
                Some(a) => IpAddress::V6(a),
                None => IpAddress::V6(0),
            };
            let dst = match u128_at(h, o + 24) {
                Some(a) => IpAddress::V6(a),
                None => IpAddress::V6(0),
            };
            (next, src, dst)
        },
        EtherType::Unknown => (0, IpAddress::V4(0), IpAddress::V4(0)),
    }
}

impl PacketHeader {
    /// Reads what it can of the header of a sampled frame; never fails.
    pub fn parse(protocol: u32, h: &[u8]) -> (r: PacketHeader)
        ensures
            r == spec_packet_header(protocol, h@),
    {
        if protocol != ETHERNET_PROTOCOL {
            return PacketHeader {
                dst_mac: 0,
                src_mac: 0,
                ethertype: 0,
                vlan: None,
                ip_protocol: 0,
                src_addr: IpAddress::V4(0),
                dst_addr: IpAddress::V4(0),
            };
        }
        let outer = match u16_at(h, 12) {
            Some(v) => v,
            None => 0,
        };
        let tagged = outer == VLAN_ETHERTYPE;
        let (ethertype, vlan, l3) = if tagged {
            let inner = match u16_at(h, 16) {
                Some(v) => v,
                None => 0,
            };
            let vlan = match u16_at(h, 14) {
                Some(tci) => Some(tci % 4096),
                None => None,
            };
            (inner, vlan, 18usize)
        } else {
            (outer, None, 14usize)
        };
        let net = parse_network(h, l3, ethertype);
        PacketHeader {
            dst_mac: mac_or_zero(h, 0),
            src_mac: mac_or_zero(h, 6),
            ethertype,
            vlan,
            ip_protocol: net.0,
            src_addr: net.1,
            dst_addr: net.2,
        }
    }
}

impl RawPacket {
    /// The link and network header of the sampled frame.
    pub fn header(&self) -> (r: PacketHeader)
        ensures
            r == spec_packet_header(self.protocol, self.header@),
    {
        PacketHeader::parse(self.protocol, self.header.as_slice())
    }
}

} // verus!
