use sflow_collector::hex::hex_to_bytes;
use sflow_collector::metrics::{Counter, SourceCounter};
use sflow_collector::packet::{EtherType, PacketHeader};
use sflow_collector::reader::{DecodeError, Reader};
use sflow_collector::sflow::{EthernetFrame, ExtendedRouter, IpAddress, Ipv6, RawPacket, SampleType};

const IPV4_FRAME: &str = "fc3342c73a3b985d826fd553080045000058888440003f06728b88e2ff020debaac0127f01bbc86b38b3a9fe14fc50181d6ec0240000170303002b000000000000f8d03c36ce2ad01df6473ec0ec792af7e7e17dada815cc98e0aa12eef0169e4c2995a4ded82d92";
const VLAN_FRAME: &str = "4006d598f005ec387321891b81000e1a0800450005dc9a8640003e06c0346815051a8b05e42c01bbe2dc70ff77ddeade6b378018000896ec00000101080a2095690a207b1a594efef28a57ee902092e75c0d9524c0813b495c78a0f76ad44a3712d6a941ae8c0e992f57bfb81e2e8d90b76a9ee68ff272f2c13cd50a54155a31";
const IPV6_FRAME: &str = "fc73fb6e7617d404ffd8348186dd6000000004d8113d2a032880f07600cafaceb00c000004cc240035a000000002000000000000000701bb9e9304d825414834bbf40c4861b7d3f22b939d50eaea766041a58e711e31bb39f793c28d65f7ef63b5d613a49a06e8a0f38e3183ae8f5907840a4c526dd44fa4932c8408413fc520";

#[test]
fn ipv4_frame_header() {
    let h = PacketHeader::parse(1, &hex_to_bytes(IPV4_FRAME).unwrap());
    assert_eq!(h.dst_mac, 0xfc33_42c7_3a3b);
    assert_eq!(h.src_mac, 0x985d_826f_d553);
    assert_eq!(h.ethertype, 0x0800);
    assert_eq!(h.vlan, None);
    assert_eq!(h.ip_protocol, 6);
    assert_eq!(h.src_addr, IpAddress::V4(0x88e2_ff02));
    assert_eq!(h.dst_addr, IpAddress::V4(0x0deb_aac0));
}

#[test]
fn tagged_frame_header() {
    let h = PacketHeader::parse(1, &hex_to_bytes(VLAN_FRAME).unwrap());
    assert_eq!(h.vlan, Some(0xe1a));
    assert_eq!(h.ethertype, 0x0800);
    assert_eq!(h.src_addr, IpAddress::V4(0x6815_051a));
    assert_eq!(h.dst_addr, IpAddress::V4(0x8b05_e42c));
}

#[test]
fn ipv6_frame_header_has_two_addresses() {
    let h = PacketHeader::parse(1, &hex_to_bytes(IPV6_FRAME).unwrap());
    assert_eq!(h.ethertype, 0x86dd);
    assert_eq!(h.ip_protocol, 17);
    assert_eq!(h.src_addr, IpAddress::V6(0x2a03_2880_f076_00ca_face_b00c_0000_04cc));
    assert_eq!(h.dst_addr, IpAddress::V6(0x2400_35a0_0000_0002_0000_0000_0000_0007));
}

#[test]
fn short_frame_keeps_what_it_has() {
    let full = hex_to_bytes(VLAN_FRAME).unwrap();
    let h = PacketHeader::parse(1, &full[..15]);
    assert_eq!(h.dst_mac, 0x4006_d598_f005);
    assert_eq!(h.src_mac, 0xec38_7321_891b);
    assert_eq!(h.vlan, None);
    assert_eq!(h.ethertype, 0);
    assert_eq!(h.src_addr, IpAddress::V4(0));
    let h = PacketHeader::parse(1, &full[..5]);
    assert_eq!(h.dst_mac, 0);
    let h = PacketHeader::parse(1, &full[..30]);
    assert_eq!(h.ip_protocol, 6);
    assert_eq!(h.src_addr, IpAddress::V4(0));
}

#[test]
fn non_ethernet_header_is_blank() {
    let h = PacketHeader::parse(11, &hex_to_bytes(IPV4_FRAME).unwrap());
    assert_eq!(h.src_mac, 0);
    assert_eq!(h.ethertype, 0);
}

#[test]
fn raw_packet_header_method() {
    let frame = hex_to_bytes(IPV4_FRAME).unwrap();
    let mut payload = Vec::new();
    for v in [1u32, 1514, 4, 20] {
        payload.extend_from_slice(&v.to_be_bytes());
    }
    payload.extend_from_slice(&frame[..20]);
    let p = RawPacket::parse(&payload).unwrap();
    assert_eq!(p.frame_length, 1514);
    assert_eq!(p.header, frame[..20].to_vec());
    let h = p.header();
    assert_eq!(h.src_mac, 0x985d_826f_d553);
    assert_eq!(h.ethertype, 0x0800);
    assert_eq!(h.ip_protocol, 0);
    payload.truncate(30);
    assert_eq!(RawPacket::parse(&payload).err(), Some(DecodeError::LengthMismatch));
}

#[test]
fn ethernet_frame_record() {
    let mut p = Vec::new();
    p.extend_from_slice(&64u32.to_be_bytes());
    p.extend_from_slice(&[1, 2, 3, 4, 5, 6, 0, 0, 7, 8, 9, 10, 11, 12, 0, 0]);
    p.extend_from_slice(&0x86ddu32.to_be_bytes());
    let e = EthernetFrame::parse(&p).unwrap();
    assert_eq!(e, EthernetFrame { length: 64, src_mac: 0x0102_0304_0506, dst_mac: 0x0708_090a_0b0c, ethertype: 0x86dd });
    assert_eq!(EthernetFrame::parse(&p[..23]).err(), Some(DecodeError::LengthMismatch));
}

#[test]
fn ipv6_and_router_records() {
    let mut p = Vec::new();
    p.extend_from_slice(&1280u32.to_be_bytes());
    p.extend_from_slice(&6u32.to_be_bytes());
    p.extend_from_slice(&1u128.to_be_bytes());
    p.extend_from_slice(&2u128.to_be_bytes());
    for v in [80u32, 8080, 2, 0] {
        p.extend_from_slice(&v.to_be_bytes());
    }
    let f = Ipv6::parse(&p).unwrap();
    assert_eq!((f.src_ip, f.dst_ip, f.dst_port), (1, 2, 8080));
    let mut q = Vec::new();
    q.extend_from_slice(&0xfe80u128.to_be_bytes());
    q.extend_from_slice(&24u32.to_be_bytes());
    q.extend_from_slice(&16u32.to_be_bytes());
    let r = ExtendedRouter::parse(&q).unwrap();
    assert_eq!(r, ExtendedRouter { nexthop: 0xfe80, src_mask: 24, dst_mask: 16 });
}

#[test]
fn reader_reads_big_endian() {
    let data: Vec<u8> = (1..=31).collect();
    let mut r = Reader::new(&data);
    assert_eq!(r.read_u8(), Ok(1));
    assert_eq!(r.read_u16(), Ok(0x0203));
    assert_eq!(r.read_u32(), Ok(0x0405_0607));
    assert_eq!(r.read_u64(), Ok(0x0809_0a0b_0c0d_0e0f));
    assert_eq!(r.read_u128(), Ok(0x1011_1213_1415_1617_1819_1a1b_1c1d_1e1f));
    assert_eq!(r.offset(), 31);
    assert_eq!(r.remaining(), 0);
    assert_eq!(r.read_u8(), Err(DecodeError::ShortBuffer));
}

#[test]
fn reader_take_and_skip() {
    let data = [9u8, 8, 7, 6, 5];
    let mut r = Reader::new(&data);
    assert_eq!(r.skip(1), Ok(()));
    assert_eq!(r.take(3), Ok(&data[1..4]));
    assert_eq!(r.read_u16(), Err(DecodeError::ShortBuffer));
    assert_eq!(r.offset(), 4);
    assert_eq!(r.take(2), Err(DecodeError::ShortBuffer));
    assert_eq!(r.read_u8(), Ok(5));
}

#[test]
fn hex_text_to_bytes() {
    assert_eq!(hex_to_bytes("0a1B"), Some(vec![0x0a, 0x1b]));
    assert_eq!(hex_to_bytes(""), Some(vec![]));
    assert_eq!(hex_to_bytes("abc"), None);
    assert_eq!(hex_to_bytes("zz"), None);
}

#[test]
fn ether_type_names_and_codes() {
    assert_eq!(EtherType::from_u32(0x0800), EtherType::Ipv4);
    assert_eq!(EtherType::from_u32(0x86dd), EtherType::Ipv6);
    assert_eq!(EtherType::from_u32(0x8100), EtherType::Unknown);
    assert_eq!(EtherType::Ipv6.code(), 0x86dd);
    assert_eq!(EtherType::Unknown.code(), 0);
    assert_eq!(EtherType::Ipv4.name(), "IPv4");
    assert_eq!(EtherType::Unknown.name(), "Unknown");
}

#[test]
fn sample_types() {
    assert_eq!(SampleType::from_tag(3), SampleType::ExpandedFlowSample);
    assert!(SampleType::from_tag(1).is_flow());
    assert!(!SampleType::from_tag(4).is_flow());
    assert_eq!(SampleType::from_tag(9), SampleType::Unknown(9));
}

#[test]
fn counter_saturates() {
    let mut c = Counter::default();
    assert_eq!(c, Counter { packets: 0, bytes: 0 });
    c.add(1, u64::MAX - 1);
    c.add(2, 5);
    assert_eq!(c, Counter { packets: 3, bytes: u64::MAX });
}

#[test]
fn source_table_counts_datagrams() {
    let mut t = SourceCounter::new();
    let a = IpAddress::V4(0xc0a8_0001);
    let b = IpAddress::V6(1);
    t.add(a, 1, 100);
    t.add(b, 1, 40);
    t.add(a, 1, 60);
    assert_eq!(t.get(&a), Some(Counter { packets: 2, bytes: 160 }));
    assert_eq!(t.get(&b), Some(Counter { packets: 1, bytes: 40 }));
    assert_eq!(t.get(&IpAddress::V4(0)), None);
    assert_eq!(t.entries().len(), 2);
}
