use rnmap_core::addr::Ipv4Addr;
use rnmap_core::checksum::checksum16;
use rnmap_core::result::{PortState, Protocol};
use rnmap_core::scan::syn::{
    build_ipv4, build_ipv4_with_id, build_rst_packet, build_syn_packet, build_tcp,
    parse_tcp_in_ipv4, syn_probe, syn_result, syn_timeout_result, syn_verdict, tcp_checksum,
    SynVerdict,
};

#[test]
fn build_syn_is_40_bytes_minimum() {
    let pkt = build_syn_packet(
        Ipv4Addr::new(10, 0, 0, 1),
        Ipv4Addr::new(10, 0, 0, 2),
        12345,
        80,
        0xdeadbeef,
    );
    assert_eq!(pkt.len(), 40);
    // IP version+IHL
    assert_eq!(pkt[0], 0x45);
    // proto=TCP
    assert_eq!(pkt[9], 6);
    // SYN flag
    assert_eq!(pkt[20 + 13], 0x02);
}

#[test]
fn tcp_checksum_self_consistent() {
    // Build then verify the checksum field validates back to 0
    let p = build_tcp(
        Ipv4Addr::new(192, 168, 1, 1),
        Ipv4Addr::new(192, 168, 1, 2),
        54321,
        22,
        0x11223344,
        0,
        0x02,
        65535,
    );
    let v = tcp_checksum(Ipv4Addr::new(192, 168, 1, 1), Ipv4Addr::new(192, 168, 1, 2), &p);
    assert_eq!(v, 0); // re-checksum should be 0 because the field is now correct
}

#[test]
fn tcp_segment_layout() {
    let src = Ipv4Addr::new(192, 168, 1, 1);
    let dst = Ipv4Addr::new(192, 168, 1, 2);
    let t = build_tcp(src, dst, 0x1234, 0x0050, 0x0102_0304, 0x0a0b_0c0d, 0x12, 0x4000);
    assert_eq!(t.len(), 20);
    assert_eq!(&t[0..4], &[0x12, 0x34, 0x00, 0x50]);
    assert_eq!(&t[4..8], &[1, 2, 3, 4]);
    assert_eq!(&t[8..12], &[0x0a, 0x0b, 0x0c, 0x0d]);
    assert_eq!(&t[12..16], &[0x50, 0x12, 0x40, 0x00]);
    assert_eq!(&t[18..20], &[0, 0]);
    // The checksum covers the pseudo-header too: changing the addresses
    // breaks it.
    assert_eq!(tcp_checksum(src, dst, &t), 0);
    assert_ne!(tcp_checksum(dst, Ipv4Addr::new(1, 1, 1, 1), &t), 0);
}

#[test]
fn ipv4_header_layout_and_checksum() {
    let h = build_ipv4_with_id(Ipv4Addr::new(10, 0, 0, 1), Ipv4Addr::new(10, 0, 0, 2), 20, 0xabcd);
    assert_eq!(h.len(), 20);
    assert_eq!(
        &h[0..10],
        &[0x45, 0x00, 0x00, 40, 0xab, 0xcd, 0x40, 0x00, 64, 6][..]
    );
    assert_eq!(&h[12..20], &[10, 0, 0, 1, 10, 0, 0, 2]);
    assert_eq!(checksum16(&h), 0);
    let r = build_ipv4(Ipv4Addr::new(1, 2, 3, 4), Ipv4Addr::new(5, 6, 7, 8), &[0u8; 7]);
    assert_eq!(&r[2..4], &[0, 27]);
    assert_eq!(checksum16(&r), 0);
}

#[test]
fn syn_and_rst_packets_checksum() {
    let src = Ipv4Addr::new(10, 0, 0, 1);
    let dst = Ipv4Addr::new(10, 0, 0, 2);
    let syn = build_syn_packet(src, dst, 40000, 443, 7);
    assert_eq!(checksum16(&syn[..20]), 0);
    assert_eq!(tcp_checksum(src, dst, &syn[20..]), 0);
    assert_eq!(&syn[34..36], &[0xff, 0xff]); // window
    let rst = build_rst_packet(src, dst, 40000, 443, 99);
    assert_eq!(rst.len(), 40);
    assert_eq!(rst[33], 0x04);
    assert_eq!(&rst[24..28], &[0, 0, 0, 99]);
    assert_eq!(&rst[34..36], &[0, 0]);
    assert_eq!(checksum16(&rst[..20]), 0);
    assert_eq!(tcp_checksum(src, dst, &rst[20..]), 0);
}

fn answer(from: Ipv4Addr, to: Ipv4Addr, sp: u16, dp: u16, flags: u8, ack: u32) -> Vec<u8> {
    let tcp = build_tcp(from, to, sp, dp, 555, ack, flags, 1000);
    let mut p = build_ipv4_with_id(from, to, tcp.len(), 1);
    p.extend_from_slice(&tcp);
    p
}

#[test]
fn parse_answers() {
    let target = Ipv4Addr::new(10, 0, 0, 2);
    let me = Ipv4Addr::new(10, 0, 0, 1);
    let a = answer(target, me, 80, 40000, 0x12, 0xdead_beef);
    assert_eq!(parse_tcp_in_ipv4(&a, target, me), Some((80, 40000, 0x12, 555, 0xdead_beef)));
    // wrong direction
    assert_eq!(parse_tcp_in_ipv4(&a, me, target), None);
    // truncated
    assert_eq!(parse_tcp_in_ipv4(&a[..39], target, me), None);
    // not TCP
    let mut udp = a.clone();
    udp[9] = 17;
    assert_eq!(parse_tcp_in_ipv4(&udp, target, me), None);
}

#[test]
fn verdicts() {
    let target = Ipv4Addr::new(10, 0, 0, 2);
    let me = Ipv4Addr::new(10, 0, 0, 1);
    let synack = answer(target, me, 80, 40000, 0x12, 77);
    assert_eq!(syn_verdict(&synack, target, me, 80, 40000), SynVerdict::Open(77));
    let rst = answer(target, me, 80, 40000, 0x14, 0);
    assert_eq!(syn_verdict(&rst, target, me, 80, 40000), SynVerdict::Closed);
    let other_port = answer(target, me, 81, 40000, 0x12, 0);
    assert_eq!(syn_verdict(&other_port, target, me, 80, 40000), SynVerdict::Unrelated);
    let plain_ack = answer(target, me, 80, 40000, 0x10, 0);
    assert_eq!(syn_verdict(&plain_ack, target, me, 80, 40000), SynVerdict::Unrelated);

    let open = syn_result(80, SynVerdict::Open(77), 12).unwrap();
    assert_eq!(open.port, 80);
    assert_eq!(open.protocol, Protocol::Tcp);
    assert_eq!(open.state, PortState::Open);
    assert_eq!(open.reason, "syn-ack");
    assert_eq!(open.rtt_ms, Some(12));
    let closed = syn_result(80, SynVerdict::Closed, 3).unwrap();
    assert_eq!(closed.state, PortState::Closed);
    assert_eq!(closed.reason, "rst");
    assert!(syn_result(80, SynVerdict::Unrelated, 3).is_none());
    let t = syn_timeout_result(80);
    assert_eq!(t.state, PortState::Filtered);
    assert_eq!(t.reason, "no-response");
    assert_eq!(t.rtt_ms, None);
}

#[test]
fn probes_use_ephemeral_ports() {
    let src = Ipv4Addr::new(10, 0, 0, 1);
    let dst = Ipv4Addr::new(10, 0, 0, 2);
    for _ in 0..50 {
        let p = syn_probe(src, dst, 22);
        assert!(p.src_port >= 32768);
        assert_eq!(p.packet.len(), 40);
        assert_eq!(&p.packet[20..22], &p.src_port.to_be_bytes());
        assert_eq!(&p.packet[24..28], &p.seq.to_be_bytes());
        assert_eq!(tcp_checksum(src, dst, &p.packet[20..]), 0);
    }
}
