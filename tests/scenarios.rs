use sflow_collector::metrics::{AgentCounter, AgentSampleKey, Collector, Counter, FlowCounter, FlowCounterKey};
use sflow_collector::reader::DecodeError;
use sflow_collector::sflow::{decode, Datagram, IpAddress, RecordType};

const AGENT: [u8; 4] = [10, 0, 0, 1];
const SRC_MAC: [u8; 6] = [0x02, 0x00, 0x00, 0x00, 0x00, 0x01];
const DST_MAC: [u8; 6] = [0x02, 0x00, 0x00, 0x00, 0x00, 0x02];
const SRC_MAC_VALUE: u64 = 0x0200_0000_0001;
const DST_MAC_VALUE: u64 = 0x0200_0000_0002;

fn be(v: u32) -> [u8; 4] {
    v.to_be_bytes()
}

fn record(tag: u32, payload: &[u8]) -> Vec<u8> {
    let mut out = Vec::new();
    out.extend_from_slice(&be(tag));
    out.extend_from_slice(&be(payload.len() as u32));
    out.extend_from_slice(payload);
    out
}

fn ethernet_record(length: u32, ethertype: u32) -> Vec<u8> {
    let mut p = Vec::new();
    p.extend_from_slice(&be(length));
    p.extend_from_slice(&SRC_MAC);
    p.extend_from_slice(&[0, 0]);
    p.extend_from_slice(&DST_MAC);
    p.extend_from_slice(&[0, 0]);
    p.extend_from_slice(&be(ethertype));
    record(2, &p)
}

fn ipv4_record(length: u32) -> Vec<u8> {
    let mut p = Vec::new();
    for v in [length, 6, 0x0a00_0001, 0x0a00_0002, 1234, 443, 0x18, 0] {
        p.extend_from_slice(&be(v));
    }
    record(3, &p)
}

fn switch_record(src_vlan: u32) -> Vec<u8> {
    let mut p = Vec::new();
    for v in [src_vlan, 0, 200, 0] {
        p.extend_from_slice(&be(v));
    }
    record(1001, &p)
}

fn raw_header_record(frame_length: u32, header: &[u8]) -> Vec<u8> {
    let mut p = Vec::new();
    for v in [1, frame_length, 4, header.len() as u32] {
        p.extend_from_slice(&be(v));
    }
    p.extend_from_slice(header);
    while p.len() % 4 != 0 {
        p.push(0);
    }
    record(1, &p)
}

fn flow_sample(sample_type: u32, rate: u32, records: &[Vec<u8>]) -> Vec<u8> {
    let mut body = Vec::new();
    for v in [7, 0, 3, rate, 1000, 0, 0, 3, 0, 4, records.len() as u32] {
        body.extend_from_slice(&be(v));
    }
    for r in records {
        body.extend_from_slice(r);
    }
    let mut out = Vec::new();
    out.extend_from_slice(&be(sample_type));
    out.extend_from_slice(&be(body.len() as u32));
    out.extend_from_slice(&body);
    out
}

fn counter_sample(body_len: usize) -> Vec<u8> {
    let mut out = Vec::new();
    out.extend_from_slice(&be(2));
    out.extend_from_slice(&be(body_len as u32));
    out.extend(std::iter::repeat(0xab).take(body_len));
    out
}

fn datagram(samples: &[Vec<u8>]) -> Vec<u8> {
    let mut out = Vec::new();
    out.extend_from_slice(&be(5));
    out.extend_from_slice(&be(1));
    out.extend_from_slice(&AGENT);
    for v in [0, 42, 123_456, samples.len() as u32] {
        out.extend_from_slice(&be(v));
    }
    for s in samples {
        out.extend_from_slice(s);
    }
    out
}

fn fold(d: &Datagram, flows: &mut FlowCounter, agents: &mut AgentCounter) {
    for s in &d.samples {
        agents.collect(s, &d.agent_address);
        flows.collect(s, &d.agent_address);
    }
}

fn key(vlan: u32, protocol: u32) -> FlowCounterKey {
    FlowCounterKey { src_mac: SRC_MAC_VALUE, dst_mac: DST_MAC_VALUE, vlan, protocol }
}

#[test]
fn version_four_leaves_tables_untouched() {
    let mut bytes = datagram(&[flow_sample(3, 16, &[ethernet_record(1514, 0x0800)])]);
    bytes[3] = 4;
    assert_eq!(&bytes[..4], &[0, 0, 0, 4]);
    let flows = FlowCounter::new();
    let agents = AgentCounter::new();
    assert_eq!(decode(&bytes).err(), Some(DecodeError::UnsupportedVersion));
    assert!(flows.entries().is_empty());
    assert!(agents.entries().is_empty());
}

#[test]
fn ethernet_and_ipv4_sample_expands_by_rate() {
    let bytes = datagram(&[flow_sample(3, 16, &[ethernet_record(1514, 0x0800), ipv4_record(1500)])]);
    let d = decode(&bytes).unwrap();
    assert_eq!(d.agent_address, IpAddress::V4(0x0a00_0001));
    let mut flows = FlowCounter::new();
    let mut agents = AgentCounter::new();
    fold(&d, &mut flows, &mut agents);
    let entries = flows.entries();
    assert_eq!(entries.len(), 1);
    assert_eq!(entries[0].0, key(0, 0x0800));
    assert_eq!(entries[0].1, Counter { packets: 16, bytes: 24000 });
}

#[test]
fn extended_switch_sets_vlan() {
    let bytes = datagram(&[flow_sample(
        3,
        16,
        &[ethernet_record(1514, 0x0800), ipv4_record(1500), switch_record(100)],
    )]);
    let d = decode(&bytes).unwrap();
    let mut flows = FlowCounter::new();
    let mut agents = AgentCounter::new();
    fold(&d, &mut flows, &mut agents);
    let entries = flows.entries();
    assert_eq!(entries.len(), 1);
    assert_eq!(entries[0].0.vlan, 100);
    assert_eq!(entries[0].1.packets, 16);
}

#[test]
fn two_datagrams_with_one_key_add_up() {
    let bytes = datagram(&[flow_sample(3, 8, &[ethernet_record(100, 0x0800), ipv4_record(100)])]);
    let mut flows = FlowCounter::new();
    let mut agents = AgentCounter::new();
    for _ in 0..2 {
        let d = decode(&bytes).unwrap();
        fold(&d, &mut flows, &mut agents);
    }
    let entries = flows.entries();
    assert_eq!(entries.len(), 1);
    assert_eq!(entries[0].1, Counter { packets: 16, bytes: 1600 });
}

#[test]
fn counter_sample_counts_per_agent_only() {
    let bytes = datagram(&[counter_sample(40)]);
    let d = decode(&bytes).unwrap();
    assert_eq!(d.samples[0].sample_type, 2);
    assert!(d.samples[0].records.is_empty());
    let mut flows = FlowCounter::new();
    let mut agents = AgentCounter::new();
    fold(&d, &mut flows, &mut agents);
    assert!(flows.entries().is_empty());
    let k = AgentSampleKey { agent: IpAddress::V4(0x0a00_0001), sample_type: 2 };
    assert_eq!(agents.get(&k), Some(Counter { packets: 1, bytes: 40 }));
    assert_eq!(agents.entries().len(), 1);
}

#[test]
fn overrunning_sample_length_is_truncated() {
    let mut s = flow_sample(3, 16, &[ethernet_record(1514, 0x0800)]);
    let declared = (s.len() - 8 + 4) as u32;
    s[4..8].copy_from_slice(&be(declared));
    let bytes = datagram(&[s]);
    assert_eq!(decode(&bytes).err(), Some(DecodeError::Truncated));
}

#[test]
fn decodes_declared_number_of_samples() {
    let samples = vec![
        flow_sample(1, 4, &[ethernet_record(64, 0x0800)]),
        counter_sample(8),
        flow_sample(3, 2, &[]),
    ];
    let bytes = datagram(&samples);
    let d = decode(&bytes).unwrap();
    assert_eq!(d.num_samples, 3);
    assert_eq!(d.samples.len(), 3);
    assert_eq!(d.samples[0].records.len(), 1);
    assert_eq!(d.samples[0].sampling_rate, 4);
}

#[test]
fn trailing_bytes_are_a_length_mismatch() {
    let mut bytes = datagram(&[counter_sample(8)]);
    bytes.push(0);
    assert_eq!(decode(&bytes).err(), Some(DecodeError::LengthMismatch));
}

#[test]
fn every_proper_prefix_is_cut_short() {
    let bytes = datagram(&[
        flow_sample(3, 16, &[ethernet_record(1514, 0x0800), ipv4_record(1500)]),
        counter_sample(12),
    ]);
    assert!(decode(&bytes).is_ok());
    for k in 0..bytes.len() {
        let e = decode(&bytes[..k]).err();
        assert!(
            e == Some(DecodeError::ShortBuffer) || e == Some(DecodeError::Truncated),
            "prefix {} gave {:?}",
            k,
            e
        );
    }
}

#[test]
fn decoding_twice_gives_the_same_result() {
    let bytes = datagram(&[flow_sample(3, 16, &[ethernet_record(1514, 0x0800), ipv4_record(1500)])]);
    let a = format!("{:?}", decode(&bytes));
    let b = format!("{:?}", decode(&bytes));
    assert_eq!(a, b);
}

#[test]
fn first_visit_takes_last_reported_length() {
    let frame = [
        0x02, 0x00, 0x00, 0x00, 0x00, 0x02, 0x02, 0x00, 0x00, 0x00, 0x00, 0x01, 0x08, 0x00,
    ];
    let bytes = datagram(&[flow_sample(1, 10, &[raw_header_record(900, &frame), ipv4_record(700)])]);
    let d = decode(&bytes).unwrap();
    let mut flows = FlowCounter::new();
    let mut agents = AgentCounter::new();
    fold(&d, &mut flows, &mut agents);
    assert_eq!(flows.get(&key(0, 0x0800)), Some(Counter { packets: 10, bytes: 7000 }));
}

#[test]
fn counters_never_decrease() {
    let samples = [
        flow_sample(3, 5, &[ethernet_record(100, 0x0800), ipv4_record(100)]),
        flow_sample(3, 7, &[ethernet_record(100, 0x86dd)]),
        flow_sample(3, 5, &[ethernet_record(100, 0x0800), ipv4_record(60)]),
        counter_sample(4),
    ];
    let mut flows = FlowCounter::new();
    let mut agents = AgentCounter::new();
    let mut before: Vec<(FlowCounterKey, Counter)> = Vec::new();
    for s in samples.iter() {
        let d = decode(&datagram(&[s.clone()])).unwrap();
        fold(&d, &mut flows, &mut agents);
        for (k, c) in &before {
            let now = flows.get(k).unwrap();
            assert!(now.packets >= c.packets && now.bytes >= c.bytes);
        }
        before = flows.entries();
    }
    assert_eq!(flows.get(&key(0, 0x0800)), Some(Counter { packets: 10, bytes: 800 }));
}

#[test]
fn arrival_order_does_not_matter() {
    let a = decode(&datagram(&[flow_sample(3, 3, &[ethernet_record(10, 0x0800), ipv4_record(50)])])).unwrap();
    let b = decode(&datagram(&[flow_sample(3, 4, &[ethernet_record(10, 0x0800), ipv4_record(20)])])).unwrap();
    let mut ab = FlowCounter::new();
    let mut ba = FlowCounter::new();
    let mut agents = AgentCounter::new();
    fold(&a, &mut ab, &mut agents);
    fold(&b, &mut ab, &mut agents);
    fold(&b, &mut ba, &mut agents);
    fold(&a, &mut ba, &mut agents);
    assert_eq!(ab.get(&key(0, 0x0800)), Some(Counter { packets: 7, bytes: 230 }));
    assert_eq!(ab.get(&key(0, 0x0800)), ba.get(&key(0, 0x0800)));
}

#[test]
fn unknown_record_is_kept() {
    let bytes = datagram(&[flow_sample(3, 1, &[record(2000, &[1, 2, 3, 4])])]);
    let d = decode(&bytes).unwrap();
    match &d.samples[0].records[0] {
        RecordType::Unknown { tag, data } => {
            assert_eq!(*tag, 2000);
            assert_eq!(data, &vec![1, 2, 3, 4]);
        }
        other => panic!("unexpected record {:?}", other),
    }
}

#[test]
fn unknown_address_type_is_refused() {
    let mut bytes = datagram(&[counter_sample(4)]);
    bytes[7] = 3;
    assert_eq!(decode(&bytes).err(), Some(DecodeError::UnsupportedAddressType));
}

#[test]
fn empty_input_is_short() {
    assert_eq!(decode(&[]).err(), Some(DecodeError::ShortBuffer));
}

#[test]
fn short_typed_record_is_a_length_mismatch() {
    let bytes = datagram(&[flow_sample(3, 1, &[record(1001, &[0, 0, 0, 1])])]);
    assert_eq!(decode(&bytes).err(), Some(DecodeError::LengthMismatch));
}

#[test]
fn record_running_past_sample_is_truncated() {
    let mut s = flow_sample(3, 1, &[switch_record(5)]);
    let n = s.len();
    // declared record length: 16 bytes of payload; claim 20
    s[n - 20..n - 16].copy_from_slice(&be(20));
    let bytes = datagram(&[s]);
    assert_eq!(decode(&bytes).err(), Some(DecodeError::Truncated));
}

#[test]
fn unread_bytes_in_flow_sample_are_a_length_mismatch() {
    let mut s = flow_sample(3, 1, &[]);
    s.extend_from_slice(&[0, 0, 0, 0]);
    let len = (s.len() - 8) as u32;
    s[4..8].copy_from_slice(&be(len));
    let bytes = datagram(&[s]);
    assert_eq!(decode(&bytes).err(), Some(DecodeError::LengthMismatch));
}

#[test]
fn ipv6_agent_is_decoded() {
    let mut bytes = Vec::new();
    bytes.extend_from_slice(&be(5));
    bytes.extend_from_slice(&be(2));
    bytes.extend_from_slice(&[0x20, 0x01, 0x0d, 0xb8, 0, 0, 0, 0, 0, 0, 0, 0, 0, 0, 0, 1]);
    for v in [0, 1, 2, 0] {
        bytes.extend_from_slice(&be(v));
    }
    let d = decode(&bytes).unwrap();
    assert_eq!(d.agent_address, IpAddress::V6(0x2001_0db8_0000_0000_0000_0000_0000_0001));
    assert_eq!(d.agent_address_type, 2);
    assert_eq!(d.uptime, 2);
    assert!(d.samples.is_empty());
}
