//! UDP payloads lifted out of frames captured on a Linux "cooked" link.

use vstd::prelude::*;
use crate::reader::{be16, be32};
use pnet::packet::ipv4::Ipv4Packet;
use pnet::packet::sll::SLLPacket;
use pnet::packet::sll2::SLL2Packet;
use pnet::packet::udp::UdpPacket;
use pnet::packet::Packet;

verus! {

/// Capture link type of Linux cooked headers, version 1.
pub const LINKTYPE_LINUX_SLL: i32 = 113;
/// Capture link type of Linux cooked headers, version 2.
pub const LINKTYPE_LINUX_SLL2: i32 = 276;
pub const IPV4_PROTOCOL: u16 = 0x0800;
pub const UDP_PROTOCOL: u8 = 17;

/// The bytes after a fixed-size header of `n` bytes.
pub open spec fn after(s: Seq<u8>, n: int) -> Seq<u8> {
    s.subrange(n, s.len() as int)
}

/// The payload of the IPv4 packet `p`, as pnet bounds it: it starts after
/// the header (at least twenty bytes, else the header length field times
/// four) and runs for the total length less the header length, cut at the
/// end of `p`.
pub open spec fn ipv4_payload(p: Seq<u8>) -> Seq<u8> {
    let ihl4 = (p[0] % 16) as int * 4;
    let start = if ihl4 > 20 { ihl4 } else { 20 };
    let plen = if be16(p, 2) as int > ihl4 { be16(p, 2) as int - ihl4 } else { 0 };
    let end = if start + plen < p.len() { start + plen } else { p.len() as int };
    if p.len() <= start {
        seq![]
    } else {
        p.subrange(start, end)
    }
}

/// Relies on pnet's `SLLPacket`: `new` accepts any frame of at least its
/// eight bytes of fixed-width fields; on sixteen bytes or more,
/// `get_protocol` reads bytes 14 and 15 and `payload` is everything after
/// byte 16. (On a shorter frame `get_protocol` would index past the end.)
#[verifier::external_body]
fn sll_parts(f: &[u8]) -> (r: Option<(u16, Vec<u8>)>)
    requires
        f@.len() >= 16,
    ensures
        r is Some,
        r matches Some((proto, p)) ==> proto == be16(f@, 14) && p@ == after(f@, 16),
{
    match SLLPacket::new(f) {
        Some(s) => Some((s.get_protocol().0, s.payload().to_vec())),
        None => None,
    }
}

/// Relies on pnet's `SLL2Packet`: `new` accepts any frame of at least its
/// twelve bytes of fixed-width fields; on twenty bytes or more,
/// `get_protocol_type` reads bytes 0 and 1 and `payload` is everything
/// after byte 20.
#[verifier::external_body]
fn sll2_parts(f: &[u8]) -> (r: Option<(u16, Vec<u8>)>)
    requires
        f@.len() >= 20,
    ensures
        r is Some,
        r matches Some((proto, p)) ==> proto == be16(f@, 0) && p@ == after(f@, 20),
{
    match SLL2Packet::new(f) {
        Some(s) => Some((s.get_protocol_type().0, s.payload().to_vec())),
        None => None,
    }
}

/// Relies on pnet's `Ipv4Packet`: `new` accepts twenty bytes or more;
/// `get_next_level_protocol` is byte 9, `get_source` bytes 12 to 15, and
/// `payload` is bounded as `ipv4_payload` says.
#[verifier::external_body]
fn ipv4_parts(p: &[u8]) -> (r: Option<(u8, u32, Vec<u8>)>)
    ensures
        r is None <==> p@.len() < 20,
        r matches Some((proto, src, pl)) ==> proto == p@[9] && src == be32(p@, 12) && pl@
            == ipv4_payload(p@),
{
    match Ipv4Packet::new(p) {
        Some(ip) => Some(
            (ip.get_next_level_protocol().0, u32::from(ip.get_source()), ip.payload().to_vec()),
        ),
        None => None,
    }
}

/// Relies on pnet's `UdpPacket`: `new` accepts eight bytes or more;
/// `get_source` reads bytes 0 and 1; `payload` is everything after the
/// eighth byte.
#[verifier::external_body]
fn udp_parts(p: &[u8]) -> (r: Option<(u16, Vec<u8>)>)
    ensures
        r is None <==> p@.len() < 8,
        r matches Some((port, pl)) ==> port == be16(p@, 0) && pl@ == after(p@, 8),
{
    match UdpPacket::new(p) {
        Some(u) => Some((u.get_source(), u.payload().to_vec())),
        None => None,
    }
}

/// A UDP datagram taken from a captured frame, with its IPv4 source.
pub struct CapturedDatagram {
    pub src_ip: u32,
    pub src_port: u16,
    pub payload: Vec<u8>,
}

/// The IPv4 packet that a frame of link type `linktype` carries, if its
/// cooked header announces IPv4.
pub open spec fn spec_link_payload(linktype: i32, f: Seq<u8>) -> Option<Seq<u8>> {
    if linktype == LINKTYPE_LINUX_SLL && f.len() >= 16 && be16(f, 14) == IPV4_PROTOCOL {
        Some(after(f, 16))
    } else if linktype == LINKTYPE_LINUX_SLL2 && f.len() >= 20 && be16(f, 0) == IPV4_PROTOCOL {
        Some(after(f, 20))
    } else {
        None
    }
}

/// Source address, source port and payload of the UDP datagram in frame
/// `f`; `None` for frames of another link type, or that hold no IPv4 UDP
/// datagram.
pub open spec fn spec_captured(linktype: i32, f: Seq<u8>) -> Option<(u32, u16, Seq<u8>)> {
    match spec_link_payload(linktype, f) {
        Some(ip) => if ip.len() < 20 || ip[9] != UDP_PROTOCOL || ipv4_payload(ip).len() < 8 {
            None
        } else {
            let u = ipv4_payload(ip);
            Some((be32(ip, 12), be16(u, 0), after(u, 8)))
        },
        None => None,
    }
}

fn link_payload(linktype: i32, frame: &[u8]) -> (r: Option<Vec<u8>>)
    ensures
        match r {
            Some(ip) => spec_link_payload(linktype, frame@) == Some(ip@),
            None => spec_link_payload(linktype, frame@) is None,
        },
{
    let parts = if linktype == LINKTYPE_LINUX_SLL && frame.len() >= 16 {
        sll_parts(frame)
    } else if linktype == LINKTYPE_LINUX_SLL2 && frame.len() >= 20 {
        sll2_parts(frame)
    } else {
        None
    };
    match parts {
        Some((proto, ip)) => if proto == IPV4_PROTOCOL {
            Some(ip)
        } else {
            None
        },
        None => None,
    }
}

/// Lifts the UDP datagram out of a frame captured with link type
/// `linktype`. Frames of other link types, other network protocols or
/// other transports give `None`.
pub fn udp_payload(linktype: i32, frame: &[u8]) -> (r: Option<CapturedDatagram>)
    ensures
        match r {
            Some(d) => spec_captured(linktype, frame@) == Some((d.src_ip, d.src_port, d.payload@)),
            None => spec_captured(linktype, frame@) is None,
        },
{
    let ip = match link_payload(linktype, frame) {
        Some(ip) => ip,
        None => return None,
    };
    let (proto, src_ip, udp) = match ipv4_parts(ip.as_slice()) {
        Some(parts) => parts,
        None => return None,
    };
    if proto != UDP_PROTOCOL {
        return None;
    }
    match udp_parts(udp.as_slice()) {
        Some((src_port, payload)) => Some(CapturedDatagram { src_ip, src_port, payload }),
        None => None,
    }
}

} // verus!
