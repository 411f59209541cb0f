use sflow_collector::capture::{udp_payload, LINKTYPE_LINUX_SLL, LINKTYPE_LINUX_SLL2};

fn ipv4_udp(total_extra: usize, protocol: u8, payload: &[u8]) -> Vec<u8> {
    let mut udp = Vec::new();
    udp.extend_from_slice(&40000u16.to_be_bytes());
    udp.extend_from_slice(&6343u16.to_be_bytes());
    udp.extend_from_slice(&((8 + payload.len()) as u16).to_be_bytes());
    udp.extend_from_slice(&[0, 0]);
    udp.extend_from_slice(payload);
    let total = (20 + udp.len() + total_extra) as u16;
    let mut ip = vec![0x45, 0];
    ip.extend_from_slice(&total.to_be_bytes());
    ip.extend_from_slice(&[0, 0, 0x40, 0, 64, protocol, 0, 0]);
    ip.extend_from_slice(&[192, 168, 1, 7]);
    ip.extend_from_slice(&[192, 168, 1, 1]);
    ip.extend_from_slice(&udp);
    ip
}

fn sll(ethertype: u16, inner: &[u8]) -> Vec<u8> {
    let mut f = vec![0, 0, 0, 1, 0, 6, 1, 2, 3, 4, 5, 6, 0, 0];
    f.extend_from_slice(&ethertype.to_be_bytes());
    f.extend_from_slice(inner);
    f
}

fn sll2(ethertype: u16, inner: &[u8]) -> Vec<u8> {
    let mut f = Vec::new();
    f.extend_from_slice(&ethertype.to_be_bytes());
    f.extend_from_slice(&[0, 0, 0, 0, 0, 2, 0, 1, 0, 6, 1, 2, 3, 4, 5, 6, 0, 0]);
    f.extend_from_slice(inner);
    f
}

#[test]
fn sll_frame_gives_udp_payload() {
    let f = sll(0x0800, &ipv4_udp(0, 17, &[0, 0, 0, 5, 9, 9]));
    let d = udp_payload(LINKTYPE_LINUX_SLL, &f).unwrap();
    assert_eq!(d.src_ip, 0xc0a8_0107);
    assert_eq!(d.src_port, 40000);
    assert_eq!(d.payload, vec![0, 0, 0, 5, 9, 9]);
}

#[test]
fn sll2_frame_gives_udp_payload() {
    let f = sll2(0x0800, &ipv4_udp(0, 17, &[1, 2, 3]));
    let d = udp_payload(LINKTYPE_LINUX_SLL2, &f).unwrap();
    assert_eq!(d.src_port, 40000);
    assert_eq!(d.payload, vec![1, 2, 3]);
}

#[test]
fn bytes_past_ipv4_total_length_are_dropped() {
    let mut inner = ipv4_udp(0, 17, &[7, 7]);
    inner.extend_from_slice(&[0xee, 0xee]);
    let d = udp_payload(LINKTYPE_LINUX_SLL, &sll(0x0800, &inner)).unwrap();
    assert_eq!(d.payload, vec![7, 7]);
}

#[test]
fn other_frames_are_skipped() {
    let tcp = sll(0x0800, &ipv4_udp(0, 6, &[1]));
    assert!(udp_payload(LINKTYPE_LINUX_SLL, &tcp).is_none());
    let v6 = sll(0x86dd, &ipv4_udp(0, 17, &[1]));
    assert!(udp_payload(LINKTYPE_LINUX_SLL, &v6).is_none());
    let udp = sll(0x0800, &ipv4_udp(0, 17, &[1]));
    assert!(udp_payload(1, &udp).is_none());
    assert!(udp_payload(LINKTYPE_LINUX_SLL, &udp[..20]).is_none());
}

#[test]
fn short_cooked_frames_are_skipped() {
    let f = sll(0x0800, &ipv4_udp(0, 17, &[1]));
    for n in 0..16 {
        assert!(udp_payload(LINKTYPE_LINUX_SLL, &f[..n]).is_none());
    }
    let g = sll2(0x0800, &ipv4_udp(0, 17, &[1]));
    for n in 0..20 {
        assert!(udp_payload(LINKTYPE_LINUX_SLL2, &g[..n]).is_none());
    }
    assert!(udp_payload(LINKTYPE_LINUX_SLL, &f[..10]).is_none());
}
