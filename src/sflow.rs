//! The sFlow v5 datagram format: the decoded values, the format itself as
//! spec functions over bytes, and the decoder that follows it.

use vstd::prelude::*;
use crate::reader::{be16, be32, be128, DecodeError, Reader};

verus! {

/// An IP address as carried in sFlow: an agent address, a flow record's
/// endpoints, a next hop.
#[derive(Debug, Clone, Copy, PartialEq, Eq, Structural)]
pub enum IpAddress {
    /// Four octets, first octet most significant.
    V4(u32),
    /// Sixteen octets, first octet most significant.
    V6(u128),
}

/// The 48-bit MAC address held in six bytes of `s` at `p`, first octet most
/// significant.
pub open spec fn mac_at(s: Seq<u8>, p: int) -> u64 {
    (be16(s, p) as int * 0x1_0000_0000 + be32(s, p + 2) as int) as u64
}

/// Record tag of a raw packet header.
pub const RAW_PACKET_TAG: u32 = 1;
/// Record tag of an Ethernet frame summary.
pub const ETHERNET_FRAME_TAG: u32 = 2;
/// Record tag of an IPv4 flow summary.
pub const IPV4_TAG: u32 = 3;
/// Record tag of an IPv6 flow summary.
pub const IPV6_TAG: u32 = 4;
/// Record tag of extended switch data.
pub const EXTENDED_SWITCH_TAG: u32 = 1001;
/// Record tag of extended router data.
pub const EXTENDED_ROUTER_TAG: u32 = 1002;

/// Ethernet frame data: frame length, the two MACs (each padded to eight
/// bytes on the wire) and the ethertype.
#[derive(Debug, Clone, Copy, PartialEq, Eq, Structural)]
pub struct EthernetFrame {
    pub length: u32,
    pub src_mac: u64,
    pub dst_mac: u64,
    pub ethertype: u32,
}

/// IPv4 flow data.
#[derive(Debug, Clone, Copy, PartialEq, Eq, Structural)]
pub struct Ipv4 {
    pub length: u32,
    pub protocol: u32,
    pub src_ip: u32,
    pub dst_ip: u32,
    pub src_port: u32,
    pub dst_port: u32,
    pub tcp_flags: u32,
    pub tos: u32,
}

/// IPv6 flow data.
#[derive(Debug, Clone, Copy, PartialEq, Eq, Structural)]
pub struct Ipv6 {
    pub length: u32,
    pub protocol: u32,
    pub src_ip: u128,
    pub dst_ip: u128,
    pub src_port: u32,
    pub dst_port: u32,
    pub tcp_flags: u32,
    pub priority: u32,
}

/// Extended switch data: ingress and egress VLAN and 802.1p priority.
#[derive(Debug, Clone, Copy, PartialEq, Eq, Structural)]
pub struct ExtendedSwitch {
    pub src_vlan: u32,
    pub src_priority: u32,
    pub dst_vlan: u32,
    pub dst_priority: u32,
}

/// Extended router data: next hop and the two prefix lengths.
#[derive(Debug, Clone, Copy, PartialEq, Eq, Structural)]
pub struct ExtendedRouter {
    pub nexthop: u128,
    pub src_mask: u32,
    pub dst_mask: u32,
}

/// A raw packet header record: the first `header_size` bytes of the sampled
/// frame, with the frame's protocol and original length.
#[derive(Debug, Clone)]
pub struct RawPacket {
    pub protocol: u32,
    pub frame_length: u32,
    pub stripped: u32,
    pub header_size: u32,
    pub header: Vec<u8>,
}

pub struct RawPacketView {
    pub protocol: u32,
    pub frame_length: u32,
    pub stripped: u32,
    pub header_size: u32,
    pub header: Seq<u8>,
}

impl View for RawPacket {
    type V = RawPacketView;

    open spec fn view(&self) -> RawPacketView {
        RawPacketView {
            protocol: self.protocol,
            frame_length: self.frame_length,
            stripped: self.stripped,
            header_size: self.header_size,
            header: self.header@,
        }
    }
}

/// A flow record, typed by its tag.
#[derive(Debug, Clone)]
pub enum RecordType {
    RawPacket(RawPacket),
    EthernetFrame(EthernetFrame),
    Ipv4(Ipv4),
    Ipv6(Ipv6),
    ExtendedSwitch(ExtendedSwitch),
    ExtendedRouter(ExtendedRouter),
    /// A record of a kind this library does not interpret: its tag and
    /// payload are kept as they came.
    Unknown { tag: u32, data: Vec<u8> },
}

pub enum RecordView {
    RawPacket(RawPacketView),
    EthernetFrame(EthernetFrame),
    Ipv4(Ipv4),
    Ipv6(Ipv6),
    ExtendedSwitch(ExtendedSwitch),
    ExtendedRouter(ExtendedRouter),
    Unknown { tag: u32, data: Seq<u8> },
}

impl View for RecordType {
    type V = RecordView;

    open spec fn view(&self) -> RecordView {
        match self {
            RecordType::RawPacket(p) => RecordView::RawPacket(p@),
            RecordType::EthernetFrame(e) => RecordView::EthernetFrame(*e),
            RecordType::Ipv4(f) => RecordView::Ipv4(*f),
            RecordType::Ipv6(f) => RecordView::Ipv6(*f),
            RecordType::ExtendedSwitch(x) => RecordView::ExtendedSwitch(*x),
            RecordType::ExtendedRouter(x) => RecordView::ExtendedRouter(*x),
            RecordType::Unknown { tag, data } => RecordView::Unknown { tag: *tag, data: data@ },
        }
    }
}

/// A record as framed on the wire: tag, declared length and payload.
#[derive(Debug, Clone)]
pub struct Record {
    pub record_type: u32,
    pub length: u32,
    pub data: Vec<u8>,
}

/// The raw packet header record held in payload `d`: four fields, then
/// `header_size` bytes of the frame (any padding after them is ignored).
pub open spec fn spec_raw_packet(d: Seq<u8>) -> Result<RawPacketView, DecodeError> {
    if d.len() < 16 || 16 + be32(d, 12) > d.len() {
        Err(DecodeError::LengthMismatch)
    } else {
        Ok(RawPacketView {
            protocol: be32(d, 0),
            frame_length: be32(d, 4),
            stripped: be32(d, 8),
            header_size: be32(d, 12),
            header: d.subrange(16, 16 + be32(d, 12)),
        })
    }
}

pub open spec fn spec_ethernet_frame(d: Seq<u8>) -> Result<EthernetFrame, DecodeError> {
    if d.len() < 24 {
        Err(DecodeError::LengthMismatch)
    } else {
        Ok(EthernetFrame {
            length: be32(d, 0),
            src_mac: mac_at(d, 4),
            dst_mac: mac_at(d, 12),
            ethertype: be32(d, 20),
        })
    }
}

pub open spec fn spec_ipv4(d: Seq<u8>) -> Result<Ipv4, DecodeError> {
    if d.len() < 32 {
        Err(DecodeError::LengthMismatch)
    } else {
        Ok(Ipv4 {
            length: be32(d, 0),
            protocol: be32(d, 4),
            src_ip: be32(d, 8),
            dst_ip: be32(d, 12),
            src_port: be32(d, 16),
            dst_port: be32(d, 20),
            tcp_flags: be32(d, 24),
            tos: be32(d, 28),
        })
    }
}

pub open spec fn spec_ipv6(d: Seq<u8>) -> Result<Ipv6, DecodeError> {
    if d.len() < 56 {
        Err(DecodeError::LengthMismatch)
    } else {
        Ok(Ipv6 {
            length: be32(d, 0),
            protocol: be32(d, 4),
            src_ip: be128(d, 8),
            dst_ip: be128(d, 24),
            src_port: be32(d, 40),
            dst_port: be32(d, 44),
            tcp_flags: be32(d, 48),
            priority: be32(d, 52),
        })
    }
}

pub open spec fn spec_extended_switch(d: Seq<u8>) -> Result<ExtendedSwitch, DecodeError> {
    if d.len() < 16 {
        Err(DecodeError::LengthMismatch)
    } else {
        Ok(ExtendedSwitch {
            src_vlan: be32(d, 0),
            src_priority: be32(d, 4),
            dst_vlan: be32(d, 8),
            dst_priority: be32(d, 12),
        })
    }
}

pub open spec fn spec_extended_router(d: Seq<u8>) -> Result<ExtendedRouter, DecodeError> {
    if d.len() < 24 {
        Err(DecodeError::LengthMismatch)
    } else {
        Ok(ExtendedRouter { nexthop: be128(d, 0), src_mask: be32(d, 16), dst_mask: be32(d, 20) })
    }
}

/// The typed record that a payload `d` under tag `tag` stands for. A payload
/// too short for its kind's fields is a `LengthMismatch`; an unknown tag is
/// kept as it is.
pub open spec fn spec_record_payload(tag: u32, d: Seq<u8>) -> Result<RecordView, DecodeError> {
    if tag == RAW_PACKET_TAG {
        match spec_raw_packet(d) {
            Ok(p) => Ok(RecordView::RawPacket(p)),
            Err(e) => Err(e),
        }
    } else if tag == ETHERNET_FRAME_TAG {
        match spec_ethernet_frame(d) {
            Ok(x) => Ok(RecordView::EthernetFrame(x)),
            Err(e) => Err(e),
        }
    } else if tag == IPV4_TAG {
        match spec_ipv4(d) {
            Ok(x) => Ok(RecordView::Ipv4(x)),
            Err(e) => Err(e),
        }
    } else if tag == IPV6_TAG {
        match spec_ipv6(d) {
            Ok(x) => Ok(RecordView::Ipv6(x)),
            Err(e) => Err(e),
        }
    } else if tag == EXTENDED_SWITCH_TAG {
        match spec_extended_switch(d) {
            Ok(x) => Ok(RecordView::ExtendedSwitch(x)),
            Err(e) => Err(e),
        }
    } else if tag == EXTENDED_ROUTER_TAG {
        match spec_extended_router(d) {
            Ok(x) => Ok(RecordView::ExtendedRouter(x)),
            Err(e) => Err(e),
        }
    } else {
        Ok(RecordView::Unknown { tag, data: d })
    }
}

/// The MAC whose first two octets are `hi` and last four `lo`.
pub fn mac_from_parts(hi: u16, lo: u32) -> (m: u64)
    ensures
        m == (hi as int * 0x1_0000_0000 + lo as int) as u64,
{
    hi as u64 * 0x1_0000_0000 + lo as u64
}

impl RawPacket {
    /// Decodes a raw packet header record from its payload.
    pub fn parse(d: &[u8]) -> (r: Result<RawPacket, DecodeError>)
        ensures
            match r {
                Ok(p) => spec_raw_packet(d@) == Ok::<RawPacketView, DecodeError>(p@),
                Err(e) => spec_raw_packet(d@) == Err::<RawPacketView, DecodeError>(e),
            },
    {
        let mut r = Reader::new(d);
        if d.len() < 16 {
            return Err(DecodeError::LengthMismatch);
        }
        let protocol = r.read_u32()?;
        let frame_length = r.read_u32()?;
        let stripped = r.read_u32()?;
        let header_size = r.read_u32()?;
        let header = match r.take(header_size as usize) {
            Ok(h) => vstd::slice::slice_to_vec(h),
            Err(_) => return Err(DecodeError::LengthMismatch),
        };
        Ok(RawPacket { protocol, frame_length, stripped, header_size, header })
    }
}

impl EthernetFrame {
    /// Decodes an Ethernet frame record from its payload.
    pub fn parse(d: &[u8]) -> (r: Result<EthernetFrame, DecodeError>)
        ensures
            r == spec_ethernet_frame(d@),
    {
        let mut r = Reader::new(d);
        if d.len() < 24 {
            return Err(DecodeError::LengthMismatch);
        }
        let length = r.read_u32()?;
        let src_mac = mac_from_parts(r.read_u16()?, r.read_u32()?);
        r.skip(2)?;
        let dst_mac = mac_from_parts(r.read_u16()?, r.read_u32()?);
        r.skip(2)?;
        let ethertype = r.read_u32()?;
        Ok(EthernetFrame { length, src_mac, dst_mac, ethertype })
    }
}

impl Ipv4 {
    /// Decodes an IPv4 flow record from its payload.
    pub fn parse(d: &[u8]) -> (r: Result<Ipv4, DecodeError>)
        ensures
            r == spec_ipv4(d@),
    {
        let mut r = Reader::new(d);
        if d.len() < 32 {
            return Err(DecodeError::LengthMismatch);
        }
        let length = r.read_u32()?;
        let protocol = r.read_u32()?;
        let src_ip = r.read_u32()?;
        let dst_ip = r.read_u32()?;
        let src_port = r.read_u32()?;
        let dst_port = r.read_u32()?;
        let tcp_flags = r.read_u32()?;
        let tos = r.read_u32()?;
        Ok(Ipv4 { length, protocol, src_ip, dst_ip, src_port, dst_port, tcp_flags, tos })
    }
}

impl Ipv6 {
    /// Decodes an IPv6 flow record from its payload; the two addresses are
    /// two distinct sixteen-byte runs.
    pub fn parse(d: &[u8]) -> (r: Result<Ipv6, DecodeError>)
        ensures
            r == spec_ipv6(d@),
    {
        let mut r = Reader::new(d);
        if d.len() < 56 {
            return Err(DecodeError::LengthMismatch);
        }
        let length = r.read_u32()?;
        let protocol = r.read_u32()?;
        let src_ip = r.read_u128()?;
        let dst_ip = r.read_u128()?;
        let src_port = r.read_u32()?;
        let dst_port = r.read_u32()?;
        let tcp_flags = r.read_u32()?;
        let priority = r.read_u32()?;
        Ok(Ipv6 { length, protocol, src_ip, dst_ip, src_port, dst_port, tcp_flags, priority })
    }
}

impl ExtendedSwitch {
    /// Decodes an extended switch record from its payload.
    pub fn parse(d: &[u8]) -> (r: Result<ExtendedSwitch, DecodeError>)
        ensures
            r == spec_extended_switch(d@),
    {
        let mut r = Reader::new(d);
        if d.len() < 16 {
            return Err(DecodeError::LengthMismatch);
        }
        let src_vlan = r.read_u32()?;
        let src_priority = r.read_u32()?;
        let dst_vlan = r.read_u32()?;
        let dst_priority = r.read_u32()?;
        Ok(ExtendedSwitch { src_vlan, src_priority, dst_vlan, dst_priority })
    }
}

impl ExtendedRouter {
    /// Decodes an extended router record from its payload.
    pub fn parse(d: &[u8]) -> (r: Result<ExtendedRouter, DecodeError>)
        ensures
            r == spec_extended_router(d@),
    {
        let mut r = Reader::new(d);
        if d.len() < 24 {
            return Err(DecodeError::LengthMismatch);
        }
        let nexthop = r.read_u128()?;
        let src_mask = r.read_u32()?;
        let dst_mask = r.read_u32()?;
        Ok(ExtendedRouter { nexthop, src_mask, dst_mask })
    }
}

impl View for Record {
    type V = (u32, u32, Seq<u8>);

    open spec fn view(&self) -> (u32, u32, Seq<u8>) {
        (self.record_type, self.length, self.data@)
    }
}

/// The record framed at position `p` of a sample body `b`: tag, length,
/// payload. A frame that runs past the body is `Truncated`.
pub open spec fn spec_record(b: Seq<u8>, p: int) -> Result<(RecordView, int), DecodeError> {
    if p + 8 > b.len() || p + 8 + be32(b, p + 4) > b.len() {
        Err(DecodeError::Truncated)
    } else {
        let end = p + 8 + be32(b, p + 4);
        match spec_record_payload(be32(b, p), b.subrange(p + 8, end)) {
            Ok(r) => Ok((r, end)),
            Err(e) => Err(e),
        }
    }
}

/// `n` records read one after another from position `p` of body `b`,
/// appended to `acc`, with the position after the last.
pub open spec fn spec_records(b: Seq<u8>, p: int, n: nat, acc: Seq<RecordView>) -> Result<
    (Seq<RecordView>, int),
    DecodeError,
>
    decreases n,
{
    if n == 0 {
        Ok((acc, p))
    } else {
        match spec_record(b, p) {
            Ok((r, q)) => spec_records(b, q, (n - 1) as nat, acc.push(r)),
            Err(e) => Err(e),
        }
    }
}

impl Record {
    /// Reads one record frame from a sample body. A frame that does not fit
    /// in what remains of the body is `Truncated`.
    pub fn parse(r: &mut Reader) -> (res: Result<Record, DecodeError>)
        requires
            old(r).wf(),
        ensures
            final(r).wf(),
            final(r).input() == old(r).input(),
            match res {
                Ok(rec) => {
                    let p = old(r).position() as int;
                    let b = old(r).input();
                    &&& p + 8 + rec.length <= b.len()
                    &&& rec.record_type == be32(b, p)
                    &&& rec.length == be32(b, p + 4)
                    &&& rec.data@ == b.subrange(p + 8, p + 8 + rec.length)
                    &&& final(r).position() == p + 8 + rec.length
                },
                Err(e) => e == DecodeError::Truncated && spec_record(
                    old(r).input(),
                    old(r).position() as int,
                ) == Err::<(RecordView, int), DecodeError>(DecodeError::Truncated),
            },
    {
        if r.remaining() < 8 {
            return Err(DecodeError::Truncated);
        }
        let record_type = r.read_u32()?;
        let length = r.read_u32()?;
        let data = match r.take(length as usize) {
            Ok(d) => vstd::slice::slice_to_vec(d),
            Err(_) => return Err(DecodeError::Truncated),
        };
        Ok(Record { record_type, length, data })
    }
}

impl RecordType {
    /// Types a record by its tag.
    pub fn from_record(rec: Record) -> (r: Result<RecordType, DecodeError>)
        ensures
            match r {
                Ok(t) => spec_record_payload(rec.record_type, rec.data@) == Ok::<RecordView, DecodeError>(t@),
                Err(e) => spec_record_payload(rec.record_type, rec.data@) == Err::<RecordView, DecodeError>(e),
            },
    {
        let tag = rec.record_type;
        if tag == RAW_PACKET_TAG {
            Ok(RecordType::RawPacket(RawPacket::parse(rec.data.as_slice())?))
        } else if tag == ETHERNET_FRAME_TAG {
            Ok(RecordType::EthernetFrame(EthernetFrame::parse(rec.data.as_slice())?))
        } else if tag == IPV4_TAG {
            Ok(RecordType::Ipv4(Ipv4::parse(rec.data.as_slice())?))
        } else if tag == IPV6_TAG {
            Ok(RecordType::Ipv6(Ipv6::parse(rec.data.as_slice())?))
        } else if tag == EXTENDED_SWITCH_TAG {
            Ok(RecordType::ExtendedSwitch(ExtendedSwitch::parse(rec.data.as_slice())?))
        } else if tag == EXTENDED_ROUTER_TAG {
            Ok(RecordType::ExtendedRouter(ExtendedRouter::parse(rec.data.as_slice())?))
        } else {
            Ok(RecordType::Unknown { tag, data: rec.data })
        }
    }
}

/// The kind of a sample, by its numeric type.
#[derive(Debug, Clone, Copy, PartialEq, Eq, Structural)]
pub enum SampleType {
    FlowSample,
    CounterSample,
    ExpandedFlowSample,
    ExpandedCounterSample,
    Unknown(u32),
}

pub open spec fn spec_sample_type(t: u32) -> SampleType {
    if t == 1 {
        SampleType::FlowSample
    } else if t == 2 {
        SampleType::CounterSample
    } else if t == 3 {
        SampleType::ExpandedFlowSample
    } else if t == 4 {
        SampleType::ExpandedCounterSample
    } else {
        SampleType::Unknown(t)
    }
}

/// Flow samples (plain and expanded) are the ones whose records are read.
pub open spec fn is_flow_type(t: u32) -> bool {
    t == 1 || t == 3
}

impl SampleType {
    pub fn from_tag(t: u32) -> (r: SampleType)
        ensures
            r == spec_sample_type(t),
    {
        if t == 1 {
            SampleType::FlowSample
        } else if t == 2 {
            SampleType::CounterSample
        } else if t == 3 {
            SampleType::ExpandedFlowSample
        } else if t == 4 {
            SampleType::ExpandedCounterSample
        } else {
            SampleType::Unknown(t)
        }
    }

    /// Whether samples of this kind carry flow records.
    pub fn is_flow(&self) -> (r: bool)
        ensures
            r == (*self is FlowSample || *self is ExpandedFlowSample),
    {
        match self {
            SampleType::FlowSample | SampleType::ExpandedFlowSample => true,
            _ => false,
        }
    }
}

/// One sample of a datagram. For samples other than flow samples only the
/// type and length are read; the other fields are zero and there are no
/// records.
#[derive(Debug, Clone)]
pub struct Sample {
    pub sample_type: u32,
    pub sample_length: u32,
    pub sequence_number: u32,
    pub source_id_type: u32,
    pub source_id_index: u32,
    pub sampling_rate: u32,
    pub sample_pool: u32,
    pub drops: u32,
    pub in_interface_format: u32,
    pub in_interface_value: u32,
    pub out_interface_format: u32,
    pub out_interface_value: u32,
    pub num_records: u32,
    pub records: Vec<RecordType>,
}

pub struct SampleView {
    pub sample_type: u32,
    pub sample_length: u32,
    pub sequence_number: u32,
    pub source_id_type: u32,
    pub source_id_index: u32,
    pub sampling_rate: u32,
    pub sample_pool: u32,
    pub drops: u32,
    pub in_interface_format: u32,
    pub in_interface_value: u32,
    pub out_interface_format: u32,
    pub out_interface_value: u32,
    pub num_records: u32,
    pub records: Seq<RecordView>,
}

pub open spec fn records_view(v: Seq<RecordType>) -> Seq<RecordView> {
    v.map_values(|r: RecordType| r@)
}

impl View for Sample {
    type V = SampleView;

    open spec fn view(&self) -> SampleView {
        SampleView {
            sample_type: self.sample_type,
            sample_length: self.sample_length,
            sequence_number: self.sequence_number,
            source_id_type: self.source_id_type,
            source_id_index: self.source_id_index,
            sampling_rate: self.sampling_rate,
            sample_pool: self.sample_pool,
            drops: self.drops,
            in_interface_format: self.in_interface_format,
            in_interface_value: self.in_interface_value,
            out_interface_format: self.out_interface_format,
            out_interface_value: self.out_interface_value,
            num_records: self.num_records,
            records: records_view(self.records@),
        }
    }
}

/// The sample of type `t` and declared length `len` whose body is `b`.
/// A flow sample's eleven fields and records must fill the body exactly:
/// running past it is `Truncated`, stopping short of it `LengthMismatch`.
pub open spec fn spec_sample_body(t: u32, len: u32, b: Seq<u8>) -> Result<SampleView, DecodeError> {
    if !is_flow_type(t) {
        Ok(
            SampleView {
                sample_type: t,
                sample_length: len,
                sequence_number: 0,
                source_id_type: 0,
                source_id_index: 0,
                sampling_rate: 0,
                sample_pool: 0,
                drops: 0,
                in_interface_format: 0,
                in_interface_value: 0,
                out_interface_format: 0,
                out_interface_value: 0,
                num_records: 0,
                records: seq![],
            },
        )
    } else if b.len() < 44 {
        Err(DecodeError::Truncated)
    } else {
        match spec_records(b, 44, be32(b, 40) as nat, seq![]) {
            Ok((records, end)) => if end != b.len() {
                Err(DecodeError::LengthMismatch)
            } else {
                Ok(
                    SampleView {
                        sample_type: t,
                        sample_length: len,
                        sequence_number: be32(b, 0),
                        source_id_type: be32(b, 4),
                        source_id_index: be32(b, 8),
                        sampling_rate: be32(b, 12),
                        sample_pool: be32(b, 16),
                        drops: be32(b, 20),
                        in_interface_format: be32(b, 24),
                        in_interface_value: be32(b, 28),
                        out_interface_format: be32(b, 32),
                        out_interface_value: be32(b, 36),
                        num_records: be32(b, 40),
                        records,
                    },
                )
            },
            Err(e) => Err(e),
        }
    }
}

/// The sample framed at position `p` of datagram `s`, with the position
/// after it. A frame header cut short is `ShortBuffer`; a body that runs
/// past the datagram is `Truncated`.
#[verifier::opaque]
pub open spec fn spec_sample(s: Seq<u8>, p: int) -> Result<(SampleView, int), DecodeError> {
    if p + 8 > s.len() {
        Err(DecodeError::ShortBuffer)
    } else if p + 8 + be32(s, p + 4) > s.len() {
        Err(DecodeError::Truncated)
    } else {
        let end = p + 8 + be32(s, p + 4);
        match spec_sample_body(be32(s, p), be32(s, p + 4), s.subrange(p + 8, end)) {
            Ok(x) => Ok((x, end)),
            Err(e) => Err(e),
        }
    }
}

/// `n` samples read one after another from position `p` of `s`, appended
/// to `acc`, with the position after the last.
pub open spec fn spec_samples(s: Seq<u8>, p: int, n: nat, acc: Seq<SampleView>) -> Result<
    (Seq<SampleView>, int),
    DecodeError,
>
    decreases n,
{
    if n == 0 {
        Ok((acc, p))
    } else {
        match spec_sample(s, p) {
            Ok((x, q)) => spec_samples(s, q, (n - 1) as nat, acc.push(x)),
            Err(e) => Err(e),
        }
    }
}

proof fn lemma_records_len(b: Seq<u8>, p: int, n: nat, acc: Seq<RecordView>)
    requires
        spec_records(b, p, n, acc) is Ok,
    ensures
        spec_records(b, p, n, acc)->Ok_0.0.len() == acc.len() + n,
    decreases n,
{
    if n > 0 {
        let (x, q) = spec_record(b, p)->Ok_0;
        lemma_records_len(b, q, (n - 1) as nat, acc.push(x));
    }
}

pub open spec fn samples_view(v: Seq<Sample>) -> Seq<SampleView> {
    v.map_values(|x: Sample| x@)
}

impl Sample {
    /// Reads one sample frame from a datagram.
    pub fn parse(r: &mut Reader) -> (res: Result<Sample, DecodeError>)
        requires
            old(r).wf(),
        ensures
            final(r).wf(),
            final(r).input() == old(r).input(),
            spec_sample(old(r).input(), old(r).position() as int) == match res {
                Ok(x) => Ok::<(SampleView, int), DecodeError>((x@, final(r).position() as int)),
                Err(e) => Err::<(SampleView, int), DecodeError>(e),
            },
            res matches Ok(x) ==> is_flow_type(x.sample_type) ==> x.records@.len() == x.num_records,
    {
        proof {
            reveal(spec_sample);
        }
        let sample_type = r.read_u32()?;
        let sample_length = r.read_u32()?;
        let body = match r.take(sample_length as usize) {
            Ok(b) => b,
            Err(_) => return Err(DecodeError::Truncated),
        };
        Sample::parse_body(sample_type, sample_length, body)
    }

    fn parse_body(sample_type: u32, sample_length: u32, body: &[u8]) -> (res: Result<
        Sample,
        DecodeError,
    >)
        ensures
            spec_sample_body(sample_type, sample_length, body@) == match res {
                Ok(x) => Ok::<SampleView, DecodeError>(x@),
                Err(e) => Err::<SampleView, DecodeError>(e),
            },
            res matches Ok(x) ==> is_flow_type(x.sample_type) ==> x.records@.len() == x.num_records,
    {
        if !SampleType::from_tag(sample_type).is_flow() {
            let records: Vec<RecordType> = Vec::new();
            proof {
                assert(records_view(records@) =~= seq![]);
            }
            return Ok(
                Sample {
                    sample_type,
                    sample_length,
                    sequence_number: 0,
                    source_id_type: 0,
                    source_id_index: 0,
                    sampling_rate: 0,
                    sample_pool: 0,
                    drops: 0,
                    in_interface_format: 0,
                    in_interface_value: 0,
                    out_interface_format: 0,
                    out_interface_value: 0,
                    num_records: 0,
                    records,
                },
            );
        }
        if body.len() < 44 {
            return Err(DecodeError::Truncated);
        }
        let mut r = Reader::new(body);
        let sequence_number = r.read_u32()?;
        let source_id_type = r.read_u32()?;
        let source_id_index = r.read_u32()?;
        let sampling_rate = r.read_u32()?;
        let sample_pool = r.read_u32()?;
        let drops = r.read_u32()?;
        let in_interface_format = r.read_u32()?;
        let in_interface_value = r.read_u32()?;
        let out_interface_format = r.read_u32()?;
        let out_interface_value = r.read_u32()?;
        let num_records = r.read_u32()?;
        let mut records: Vec<RecordType> = Vec::new();
        let mut i: u32 = 0;
        proof {
            assert(records_view(records@) =~= seq![]);
        }
        while i < num_records
            invariant
                r.wf(),
                r.input() == body@,
                is_flow_type(sample_type),
                body@.len() >= 44,
                i <= num_records,
                num_records == be32(body@, 40),
                spec_records(body@, 44, num_records as nat, seq![]) == spec_records(
                    body@,
                    r.position() as int,
                    (num_records - i) as nat,
                    records_view(records@),
                ),
            decreases num_records - i,
        {
            let rec = Record::parse(&mut r)?;
            let t = RecordType::from_record(rec)?;
            let ghost prev = records@;
            let ghost tv = t@;
            records.push(t);
            proof {
                assert(records_view(records@) =~= records_view(prev).push(tv));
            }
            i = i + 1;
        }
        if r.remaining() != 0 {
            return Err(DecodeError::LengthMismatch);
        }
        proof {
            lemma_records_len(body@, 44, num_records as nat, seq![]);
        }
        Ok(
            Sample {
                sample_type,
                sample_length,
                sequence_number,
                source_id_type,
                source_id_index,
                sampling_rate,
                sample_pool,
                drops,
                in_interface_format,
                in_interface_value,
                out_interface_format,
                out_interface_value,
                num_records,
                records,
            },
        )
    }
}

/// A decoded datagram.
#[derive(Debug, Clone)]
pub struct Datagram {
    pub version: u32,
    pub agent_address_type: u32,
    pub agent_address: IpAddress,
    pub sub_agent_id: u32,
    pub sequence_number: u32,
    /// The agent's uptime in milliseconds.
    pub uptime: u32,
    pub num_samples: u32,
    pub samples: Vec<Sample>,
}

pub struct DatagramView {
    pub version: u32,
    pub agent_address_type: u32,
    pub agent_address: IpAddress,
    pub sub_agent_id: u32,
    pub sequence_number: u32,
    pub uptime: u32,
    pub num_samples: u32,
    pub samples: Seq<SampleView>,
}

impl View for Datagram {
    type V = DatagramView;

    open spec fn view(&self) -> DatagramView {
        DatagramView {
            version: self.version,
            agent_address_type: self.agent_address_type,
            agent_address: self.agent_address,
            sub_agent_id: self.sub_agent_id,
            sequence_number: self.sequence_number,
            uptime: self.uptime,
            num_samples: self.num_samples,
            samples: samples_view(self.samples@),
        }
    }
}

/// Where the samples of datagram `s` begin: after version, address type,
/// the address (four or sixteen bytes by its type) and four more fields.
pub open spec fn samples_start(s: Seq<u8>) -> int {
    if be32(s, 4) == 1 {
        28int
    } else {
        40int
    }
}

/// The datagram that the bytes `s` encode. Every sample must be read and
/// the last one must end where `s` ends.
pub open spec fn spec_datagram(s: Seq<u8>) -> Result<DatagramView, DecodeError> {
    if s.len() < 4 {
        Err(DecodeError::ShortBuffer)
    } else if be32(s, 0) != 5 {
        Err(DecodeError::UnsupportedVersion)
    } else if s.len() < 8 {
        Err(DecodeError::ShortBuffer)
    } else if be32(s, 4) != 1 && be32(s, 4) != 2 {
        Err(DecodeError::UnsupportedAddressType)
    } else if s.len() < samples_start(s) {
        Err(DecodeError::ShortBuffer)
    } else {
        let h = samples_start(s) - 16;
        match spec_samples(s, samples_start(s), be32(s, h + 12) as nat, seq![]) {
            Ok((samples, end)) => if end != s.len() {
                Err(DecodeError::LengthMismatch)
            } else {
                Ok(
                    DatagramView {
                        version: 5,
                        agent_address_type: be32(s, 4),
                        agent_address: if be32(s, 4) == 1 {
                            IpAddress::V4(be32(s, 8))
                        } else {
                            IpAddress::V6(be128(s, 8))
                        },
                        sub_agent_id: be32(s, h),
                        sequence_number: be32(s, h + 4),
                        uptime: be32(s, h + 8),
                        num_samples: be32(s, h + 12),
                        samples,
                    },
                )
            },
            Err(e) => Err(e),
        }
    }
}

impl Datagram {
    /// Decodes a whole datagram.
    pub fn parse(bytes: &[u8]) -> (res: Result<Datagram, DecodeError>)
        ensures
            spec_datagram(bytes@) == match res {
                Ok(d) => Ok::<DatagramView, DecodeError>(d@),
                Err(e) => Err::<DatagramView, DecodeError>(e),
            },
            res matches Ok(d) ==> d.samples@.len() == d.num_samples,
    {
        let mut r = Reader::new(bytes);
        let version = r.read_u32()?;
        if version != 5 {
            return Err(DecodeError::UnsupportedVersion);
        }
        let agent_address_type = r.read_u32()?;
        let agent_address = if agent_address_type == 1 {
            IpAddress::V4(r.read_u32()?)
        } else if agent_address_type == 2 {
            IpAddress::V6(r.read_u128()?)
        } else {
            return Err(DecodeError::UnsupportedAddressType);
        };
        let sub_agent_id = r.read_u32()?;
        let sequence_number = r.read_u32()?;
        let uptime = r.read_u32()?;
        let num_samples = r.read_u32()?;
        let mut samples: Vec<Sample> = Vec::new();
        let mut i: u32 = 0;
        proof {
            assert(samples_view(samples@) =~= seq![]);
        }
        while i < num_samples
            invariant
                r.wf(),
                r.input() == bytes@,
                bytes@.len() >= 8,
                be32(bytes@, 0) == 5,
                be32(bytes@, 4) == 1 || be32(bytes@, 4) == 2,
                bytes@.len() >= samples_start(bytes@),
                i <= num_samples,
                num_samples == be32(bytes@, samples_start(bytes@) - 4),
                spec_samples(bytes@, samples_start(bytes@), num_samples as nat, seq![])
                    == spec_samples(
                    bytes@,
                    r.position() as int,
                    (num_samples - i) as nat,
                    samples_view(samples@),
                ),
            decreases num_samples - i,
        {
            let x = Sample::parse(&mut r)?;
            let ghost prev = samples@;
            let ghost xv = x@;
            samples.push(x);
            proof {
                assert(samples_view(samples@) =~= samples_view(prev).push(xv));
            }
            i = i + 1;
        }
        if r.remaining() != 0 {
            return Err(DecodeError::LengthMismatch);
        }
        proof {
            lemma_decode_consumes_all(bytes@);
        }
        Ok(
            Datagram {
                version,
                agent_address_type,
                agent_address,
                sub_agent_id,
                sequence_number,
                uptime,
                num_samples,
                samples,
            },
        )
    }
}

/// Decodes an sFlow v5 datagram. The result depends on the bytes alone.
pub fn decode(bytes: &[u8]) -> (res: Result<Datagram, DecodeError>)
    ensures
        spec_datagram(bytes@) == match res {
            Ok(d) => Ok::<DatagramView, DecodeError>(d@),
            Err(e) => Err::<DatagramView, DecodeError>(e),
        },
        res matches Ok(d) ==> d.samples@.len() == d.num_samples,
{
    Datagram::parse(bytes)
}

proof fn lemma_samples_len(s: Seq<u8>, p: int, n: nat, acc: Seq<SampleView>)
    requires
        spec_samples(s, p, n, acc) is Ok,
    ensures
        spec_samples(s, p, n, acc)->Ok_0.0.len() == acc.len() + n,
    decreases n,
{
    if n > 0 {
        let (x, q) = spec_sample(s, p)->Ok_0;
        lemma_samples_len(s, q, (n - 1) as nat, acc.push(x));
    }
}

/// A datagram that decodes holds exactly as many samples as its header
/// declares, and its last sample ends exactly where the input ends.
pub proof fn lemma_decode_consumes_all(s: Seq<u8>)
    requires
        spec_datagram(s) is Ok,
    ensures
        spec_datagram(s)->Ok_0.samples.len() == spec_datagram(s)->Ok_0.num_samples,
        spec_samples(s, samples_start(s), spec_datagram(s)->Ok_0.num_samples as nat, seq![])
            == Ok::<(Seq<SampleView>, int), DecodeError>(
            (spec_datagram(s)->Ok_0.samples, s.len() as int),
        ),
{
    let n = spec_datagram(s)->Ok_0.num_samples;
    lemma_samples_len(s, samples_start(s), n as nat, seq![]);
}

/// Decoding depends on the bytes alone: equal inputs decode to equal
/// results.
pub proof fn lemma_decode_is_a_function(a: Seq<u8>, b: Seq<u8>)
    requires
        a == b,
    ensures
        spec_datagram(a) == spec_datagram(b),
{
}

pub open spec fn is_cut_short(r: Result<DatagramView, DecodeError>) -> bool {
    r == Err::<DatagramView, DecodeError>(DecodeError::ShortBuffer) || r == Err::<
        DatagramView,
        DecodeError,
    >(DecodeError::Truncated)
}

proof fn lemma_truncated_samples(s: Seq<u8>, k: int, p: int, n: nat, acc: Seq<SampleView>)
    requires
        spec_samples(s, p, n, acc) is Ok,
        spec_samples(s, p, n, acc)->Ok_0.1 > k,
        0 <= p <= k < s.len(),
    ensures
        spec_samples(s.take(k), p, n, acc) == Err::<(Seq<SampleView>, int), DecodeError>(
            DecodeError::ShortBuffer,
        ) || spec_samples(s.take(k), p, n, acc) == Err::<(Seq<SampleView>, int), DecodeError>(
            DecodeError::Truncated,
        ),
    decreases n,
{
    reveal(spec_sample);
    let t = s.take(k);
    if n > 0 {
        let (x, q) = spec_sample(s, p)->Ok_0;
        if p + 8 <= k {
            assert(be32(t, p + 4) == be32(s, p + 4));
            assert(be32(t, p) == be32(s, p));
            if q <= k {
                assert(t.subrange(p + 8, q) =~= s.subrange(p + 8, q));
                assert(spec_sample(t, p) == spec_sample(s, p));
                lemma_truncated_samples(s, k, q, (n - 1) as nat, acc.push(x));
            }
        }
    }
}

/// Any proper prefix of a datagram that decodes is refused, as
/// `ShortBuffer` or `Truncated`, never decoded in part.
pub proof fn lemma_truncated_datagram(s: Seq<u8>, k: int)
    requires
        spec_datagram(s) is Ok,
        0 <= k < s.len(),
    ensures
        is_cut_short(spec_datagram(s.take(k))),
{
    let t = s.take(k);
    lemma_decode_consumes_all(s);
    if k >= 8 {
        assert(be32(t, 0) == be32(s, 0));
        assert(be32(t, 4) == be32(s, 4));
        if k >= samples_start(s) {
            let h = samples_start(s) - 16;
            assert(be32(t, h + 12) == be32(s, h + 12));
            lemma_truncated_samples(s, k, samples_start(s), be32(s, h + 12) as nat, seq![]);
        }
    } else if k >= 4 {
        assert(be32(t, 0) == be32(s, 0));
    }
}

proof fn lemma_samples_split(s: Seq<u8>, p: int, i: nat, n: nat, acc: Seq<SampleView>)
    requires
        i <= n,
    ensures
        spec_samples(s, p, n, acc) == match spec_samples(s, p, i, acc) {
            Ok((xs, q)) => spec_samples(s, q, (n - i) as nat, xs),
            Err(e) => Err(e),
        },
    decreases i,
{
    if i > 0 {
        if let Ok((x, q)) = spec_sample(s, p) {
            lemma_samples_split(s, q, (i - 1) as nat, (n - 1) as nat, acc.push(x));
        }
    }
}

/// A datagram with a sound header, whose samples decode up to one whose
/// declared length runs past the end of the input, is refused as
/// `Truncated`.
pub proof fn lemma_overrunning_sample(s: Seq<u8>, i: nat)
    requires
        s.len() >= 8,
        be32(s, 0) == 5,
        be32(s, 4) == 1 || be32(s, 4) == 2,
        s.len() >= samples_start(s),
        i < be32(s, samples_start(s) - 4),
        spec_samples(s, samples_start(s), i, seq![]) is Ok,
        ({
            let p = spec_samples(s, samples_start(s), i, seq![])->Ok_0.1;
            p + 8 <= s.len() && p + 8 + be32(s, p + 4) > s.len()
        }),
    ensures
        spec_datagram(s) == Err::<DatagramView, DecodeError>(DecodeError::Truncated),
{
    reveal(spec_sample);
    let n = be32(s, samples_start(s) - 4) as nat;
    lemma_samples_split(s, samples_start(s), i, n, seq![]);
}

} // verus!
