use rnmap_core::addr::{IpAddr, Ipv4Addr, Ipv6Addr};
use rnmap_core::checksum::checksum16;
use rnmap_core::discovery::{
    build_icmp_echo, echo_request, icmp_outcome, icmp_target, is_echo_reply, libc_eperm,
    raw_socket_error, strip_ipv4, syn_socket_error, ProbeAnswer, TcpPing, TcpPingStep,
};
use rnmap_core::error::Error;
use rnmap_core::result::HostState;
use rnmap_core::timing::TimeSpan;

#[test]
fn icmp_packet_starts_with_type_8() {
    let pkt = build_icmp_echo(0xbeef, 1, b"x");
    assert_eq!(pkt[0], 8);
    assert_eq!(pkt[1], 0);
    // checksum non-zero
    assert!(pkt[2] != 0 || pkt[3] != 0);
}

#[test]
fn checksum_known_vector() {
    let c = checksum16(b"hello-world-checksum");
    assert!(c != 0);
}

#[test]
fn strip_ipv4_basic() {
    let mut pkt = vec![0u8; 32];
    pkt[0] = 0x45; // IHL = 5 → 20 bytes
    pkt[9] = 1; // proto = ICMP
    let payload = strip_ipv4(&pkt).unwrap();
    assert_eq!(payload.len(), 12);
}

#[test]
fn strip_ipv4_rejects_non_icmp() {
    let mut pkt = vec![0u8; 32];
    pkt[0] = 0x45;
    pkt[9] = 6; // TCP — should be rejected
    assert!(strip_ipv4(&pkt).is_none());
}

#[test]
fn strip_ipv4_edges() {
    // too short
    let mut short = vec![0u8; 19];
    short[0] = 0x45;
    assert!(strip_ipv4(&short).is_none());
    // header longer than the datagram
    let mut long_ihl = vec![0u8; 20];
    long_ihl[0] = 0x4f; // 60-byte header
    long_ihl[9] = 1;
    assert!(strip_ipv4(&long_ihl).is_none());
    // options: IHL 6 → 24-byte header
    let mut opts = vec![0u8; 30];
    opts[0] = 0x46;
    opts[9] = 1;
    opts[24] = 0xaa;
    let p = strip_ipv4(&opts).unwrap();
    assert_eq!(p, &[0xaa, 0, 0, 0, 0, 0][..]);
}

#[test]
fn checksum_rfc1071_header() {
    // IPv4 header with its checksum field zeroed; the checksum is 0xb861.
    let h: [u8; 20] = [
        0x45, 0x00, 0x00, 0x73, 0x00, 0x00, 0x40, 0x00, 0x40, 0x11, 0x00, 0x00, 0xc0, 0xa8, 0x00,
        0x01, 0xc0, 0xa8, 0x00, 0xc7,
    ];
    assert_eq!(checksum16(&h), 0xb861);
    let mut filled = h;
    filled[10] = 0xb8;
    filled[11] = 0x61;
    assert_eq!(checksum16(&filled), 0);
}

#[test]
fn checksum_odd_length_pads_with_zero() {
    // 0x0102 + 0x0300 = 0x0402 → !0x0402
    assert_eq!(checksum16(&[1, 2, 3]), !0x0402u16);
    assert_eq!(checksum16(&[]), 0xffff);
    // carries fold back in: 0xffff + 0x0001 = 0x1_0000 → 0x0001 → !1
    assert_eq!(checksum16(&[0xff, 0xff, 0x00, 0x01]), !0x0001u16);
}

#[test]
fn icmp_echo_layout_and_checksum() {
    let pkt = build_icmp_echo(0xbeef, 0x0102, b"ab");
    assert_eq!(pkt.len(), 10);
    assert_eq!(&pkt[0..2], &[8, 0]);
    assert_eq!(&pkt[4..], &[0xbe, 0xef, 0x01, 0x02, b'a', b'b']);
    // the receiver's check sums the whole message to zero
    assert_eq!(checksum16(&pkt), 0);
}

#[test]
fn echo_request_uses_low_pid_bits() {
    let pkt = echo_request(0x1234_5678);
    assert_eq!(&pkt[0..2], &[8, 0]);
    assert_eq!(&pkt[4..8], &[0x56, 0x78, 0x00, 0x01]);
    assert_eq!(&pkt[8..], b"rnmap");
    assert_eq!(checksum16(&pkt), 0);
}

#[test]
fn echo_reply_recognised() {
    let mut reply = vec![0u8; 28];
    reply[0] = 0x45;
    reply[9] = 1;
    reply[20] = 0; // echo reply
    assert!(is_echo_reply(&reply));
    reply[20] = 8; // echo request
    assert!(!is_echo_reply(&reply));
    let mut header_only = vec![0u8; 20];
    header_only[0] = 0x45;
    header_only[9] = 1;
    assert!(!is_echo_reply(&header_only));
}

#[test]
fn raw_socket_errors() {
    assert_eq!(libc_eperm(), 1);
    assert_eq!(
        raw_socket_error(Some(1), "ICMP raw socket", "Operation not permitted"),
        Error::Privilege("ICMP raw socket: Operation not permitted".to_string())
    );
    assert_eq!(
        raw_socket_error(Some(13), "ICMP raw socket", "Permission denied"),
        Error::Privilege("ICMP raw socket: Permission denied".to_string())
    );
    assert_eq!(
        raw_socket_error(Some(93), "raw TCP socket", "Protocol not supported"),
        Error::Privilege("raw TCP socket: Protocol not supported".to_string())
    );
    assert_eq!(
        raw_socket_error(Some(24), "ICMP raw socket", "Too many open files"),
        Error::Io("Too many open files".to_string())
    );
    assert_eq!(raw_socket_error(None, "x", "boom"), Error::Io("boom".to_string()));
    // the SYN scan's raw TCP socket: only EPERM is a privilege error
    assert_eq!(
        syn_socket_error(Some(1), "raw TCP socket", "Operation not permitted"),
        Error::Privilege("raw TCP socket: Operation not permitted".to_string())
    );
    assert_eq!(
        syn_socket_error(Some(13), "raw TCP socket", "Permission denied"),
        Error::Io("Permission denied".to_string())
    );
    assert_eq!(syn_socket_error(None, "raw TCP socket", "x"), Error::Io("x".to_string()));
}

#[test]
fn icmp_only_for_ipv4() {
    let v4 = Ipv4Addr::new(10, 1, 2, 3);
    assert_eq!(icmp_target(&IpAddr::V4(v4)), Ok(v4));
    let v6 = IpAddr::V6(Ipv6Addr::new([0, 0, 0, 0, 0, 0, 0, 1]));
    assert_eq!(
        icmp_target(&v6),
        Err(Error::Other("ICMPv6 echo not implemented".to_string()))
    );
}

#[test]
fn icmp_outcomes() {
    let rtt = TimeSpan { secs: 0, nanos: 1_000 };
    let up = icmp_outcome(true, rtt);
    assert_eq!(up.state, HostState::Up);
    assert_eq!(up.reason, "icmp-echo-reply");
    assert_eq!(up.rtt, Some(rtt));
    let down = icmp_outcome(false, rtt);
    assert_eq!(down.state, HostState::Down);
    assert_eq!(down.reason, "no-icmp-reply");
    assert_eq!(down.rtt, None);
}

fn run_ping(ports: &[u16], answers: &[ProbeAnswer]) -> (HostState, String, Vec<u16>) {
    let mut ping = TcpPing::new(ports);
    let mut probed = Vec::new();
    let mut k = 0;
    loop {
        match ping.step() {
            TcpPingStep::Probe(p) => {
                probed.push(p);
                let a = answers[k];
                k += 1;
                if let Some(o) = ping.record(a) {
                    return (o.state, o.reason, probed);
                }
            }
            TcpPingStep::Finished(o) => return (o.state, o.reason, probed),
        }
    }
}

#[test]
fn tcp_ping_first_connect_wins() {
    let rtt = TimeSpan { secs: 0, nanos: 5 };
    let (s, r, probed) = run_ping(
        &[80, 443, 22],
        &[ProbeAnswer::NoAnswer, ProbeAnswer::Connected(rtt), ProbeAnswer::Refused],
    );
    assert_eq!(s, HostState::Up);
    assert_eq!(r, "tcp-syn-ack:443");
    assert_eq!(probed, vec![80, 443]);
}

#[test]
fn tcp_ping_refusal_means_up() {
    let (s, r, probed) = run_ping(
        &[80, 443, 22],
        &[ProbeAnswer::NoAnswer, ProbeAnswer::Refused, ProbeAnswer::NoAnswer],
    );
    assert_eq!(s, HostState::Up);
    assert_eq!(r, "tcp-rst");
    assert_eq!(probed, vec![80, 443, 22]);
}

#[test]
fn tcp_ping_silence_means_down() {
    let (s, r, _) = run_ping(&[80, 443], &[ProbeAnswer::NoAnswer, ProbeAnswer::NoAnswer]);
    assert_eq!(s, HostState::Down);
    assert_eq!(r, "no-response");
    let (s, r, probed) = run_ping(&[], &[]);
    assert_eq!(s, HostState::Down);
    assert_eq!(r, "no-response");
    assert!(probed.is_empty());
}
