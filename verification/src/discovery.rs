//! Host discovery: TCP-ping (`-PS<ports>`) and ICMP echo (`-PE`).
//!
//! The probes themselves are network I/O and run outside this crate; what
//! is decided here is which probe comes next, what a probe's answer means,
//! and the bytes that go on the wire.
use crate::addr::{IpAddr, Ipv4Addr};
pub use crate::checksum::checksum16;
use crate::checksum::{checksum_of, lemma_word_total_bound, law_checksum_verifies, with_checksum};
use crate::error::Error;
use crate::result::HostState;
use crate::text::{chars_of, dec, push_dec, push_str, string_of};
use crate::timing::TimeSpan;
use vstd::prelude::*;

verus! {

/// Result of probing a single host.
#[derive(Debug, Clone)]
pub struct DiscoveryOutcome {
    pub state: HostState,
    pub reason: String,
    pub rtt: Option<TimeSpan>,
}

/// Big-endian bytes of a 16-bit value.
pub open spec fn be16(v: u16) -> Seq<u8> {
    seq![(v / 256) as u8, (v % 256) as u8]
}

/// Appends the bytes of `src` to `out`.
pub fn push_bytes(out: &mut Vec<u8>, src: &[u8])
    ensures
        final(out)@ == old(out)@ + src@,
{
    let mut i: usize = 0;
    while i < src.len()
        invariant
            i <= src.len(),
            out@ == old(out)@ + src@.take(i as int),
        decreases src.len() - i,
    {
        out.push(src[i]);
        i = i + 1;
        assert(out@ =~= old(out)@ + src@.take(i as int));
    }
    assert(src@.take(src.len() as int) =~= src@);
}

/// Appends the two big-endian bytes of `v`.
pub fn push_be16(out: &mut Vec<u8>, v: u16)
    ensures
        final(out)@ == old(out)@ + be16(v),
{
    out.push((v / 256) as u8);
    out.push((v % 256) as u8);
    assert(out@ =~= old(out)@ + be16(v));
}

/// Writes `c` big-endian at `off`, as `put_word` describes.
pub fn set_be16(pkt: &mut Vec<u8>, off: usize, c: u16)
    requires
        off + 1 < old(pkt)@.len(),
    ensures
        final(pkt)@ == crate::checksum::put_word(old(pkt)@, off as int, c),
{
    let n = pkt.len();
    assert(off + 1 < n);
    let off1 = off + 1;
    pkt.set(off, (c / 256) as u8);
    pkt.set(off1, (c % 256) as u8);
}

/// ICMP echo request before its checksum is filled in.
pub open spec fn icmp_echo_body(id: u16, seq: u16, payload: Seq<u8>) -> Seq<u8> {
    seq![8u8, 0u8, 0u8, 0u8] + be16(id) + be16(seq) + payload
}

/// ICMP echo request: type 8, code 0, checksum, identifier, sequence, payload.
pub open spec fn icmp_echo_packet(id: u16, seq: u16, payload: Seq<u8>) -> Seq<u8> {
    with_checksum(icmp_echo_body(id, seq, payload), 2)
}

pub fn build_icmp_echo(id: u16, seq: u16, payload: &[u8]) -> (pkt: Vec<u8>)
    ensures
        pkt@ == icmp_echo_packet(id, seq, payload@),
{
    let mut pkt: Vec<u8> = Vec::new();
    pkt.push(8);  // type = 8 echo request
    pkt.push(0);  // code
    pkt.push(0);  // checksum placeholder
    pkt.push(0);
    push_be16(&mut pkt, id);
    push_be16(&mut pkt, seq);
    push_bytes(&mut pkt, payload);
    assert(pkt@ =~= icmp_echo_body(id, seq, payload@));
    let csum = checksum16(pkt.as_slice());
    set_be16(&mut pkt, 2, csum);
    pkt
}

/// An echo request whose payload is at most 100000 bytes checksums to zero,
/// so the receiver accepts it.
pub proof fn law_icmp_echo_checksum_valid(id: u16, seq: u16, payload: Seq<u8>)
    requires
        payload.len() <= 100000,
    ensures
        checksum_of(icmp_echo_packet(id, seq, payload)) == 0,
{
    let body = icmp_echo_body(id, seq, payload);
    lemma_word_total_bound(body);
    assert(65535 * ((body.len() + 1) / 2) <= 65535 * 50004) by (nonlinear_arith)
        requires
            body.len() <= 100008,
    ;
    law_checksum_verifies(body, 2);
}

/// The low 16 bits of a 32-bit value.
pub open spec fn low16(v: u32) -> u16 {
    (v % 65536) as u16
}

pub fn low16_of(v: u32) -> (r: u16)
    ensures
        r == low16(v),
{
    (v % 65536) as u16
}

/// The echo request this scanner sends: identifier from the process id,
/// sequence 1, payload `rnmap`.
pub fn echo_request(pid: u32) -> (pkt: Vec<u8>)
    ensures
        pkt@ == icmp_echo_packet(low16(pid), 1, seq![114u8, 110u8, 109u8, 97u8, 112u8]),
{
    let payload: [u8; 5] = [114, 110, 109, 97, 112];
    assert(payload@ =~= seq![114u8, 110u8, 109u8, 97u8, 112u8]);
    build_icmp_echo(low16_of(pid), 1, &payload)
}

/// errno of "operation not permitted".
pub fn libc_eperm() -> (e: i32)
    ensures
        e == 1,
{
    1  // EPERM on Linux/macOS

}

/// The payload of an IPv4 datagram that carries ICMP.
pub open spec fn stripped_ipv4(buf: Seq<u8>) -> Option<Seq<u8>> {
    if buf.len() < 20 {
        None
    } else if buf[9] != 1 {
        None
    } else if buf.len() < (buf[0] % 16) as nat * 4 {
        None
    } else {
        Some(buf.skip((buf[0] % 16) as int * 4))
    }
}

/// Strips the IPv4 header (length from its IHL field); only ICMP (protocol 1)
/// is accepted.
pub fn strip_ipv4(buf: &[u8]) -> (r: Option<&[u8]>)
    ensures
        r is Some <==> stripped_ipv4(buf@) is Some,
        r matches Some(p) ==> stripped_ipv4(buf@) == Some(p@),
{
    if buf.len() < 20 {
        return None;
    }
    // Only actual ICMP (proto=1) is accepted.
    if buf[9] != 1 {
        return None;
    }
    let ihl = ((buf[0] % 16) as usize) * 4;
    if buf.len() < ihl {
        return None;
    }
    let p = &buf[ihl..buf.len()];
    assert(p@ =~= buf@.skip(ihl as int));
    Some(p)
}

/// A datagram answers an echo request: its ICMP payload starts with type 0.
pub open spec fn is_echo_reply_spec(buf: Seq<u8>) -> bool {
    stripped_ipv4(buf) matches Some(p) && p.len() > 0 && p[0] == 0
}

pub fn is_echo_reply(buf: &[u8]) -> (b: bool)
    ensures
        b == is_echo_reply_spec(buf@),
{
    match strip_ipv4(buf) {
        Some(p) => p.len() > 0 && p[0] == 0,
        None => false,
    }
}

/// The errno values (Linux) with which opening a raw socket fails for lack
/// of privilege (`EPERM`, `EACCES`) or because the platform offers no such
/// socket (`EPROTONOSUPPORT`, `ESOCKTNOSUPPORT`, `EOPNOTSUPP`, `EAFNOSUPPORT`).
pub open spec fn raw_socket_refused(code: i32) -> bool {
    code == 1 || code == 13 || code == 93 || code == 94 || code == 95 || code == 97
}

/// The error a failed raw ICMP socket creation stands for: missing privilege
/// when the process may not open raw sockets or the platform has none (as
/// `icmp_ping` promises for non-root and unsupported platforms), an I/O
/// error otherwise.
pub fn raw_socket_error(os_code: Option<i32>, context: &str, detail: &str) -> (e: Error)
    ensures
        (os_code matches Some(c) && raw_socket_refused(c)) ==> (e matches Error::Privilege(m)
            && m@ == context@ + ": "@ + detail@),
        !(os_code matches Some(c) && raw_socket_refused(c)) ==> (e matches Error::Io(m) && m@
            == detail@),
{
    let eperm = libc_eperm();
    let refused = match os_code {
        Some(c) => c == eperm || c == 13 || c == 93 || c == 94 || c == 95 || c == 97,
        None => false,
    };
    if refused {
        let mut m = chars_of(context);
        push_str(&mut m, ": ");
        push_str(&mut m, detail);
        Error::Privilege(string_of(&m))
    } else {
        Error::Io(string_of(&chars_of(detail)))
    }
}

/// The error a failed raw TCP socket creation (SYN scan) stands for:
/// missing privilege when the OS says EPERM, an I/O error otherwise.
pub fn syn_socket_error(os_code: Option<i32>, context: &str, detail: &str) -> (e: Error)
    ensures
        os_code == Some(1i32) ==> (e matches Error::Privilege(m) && m@ == context@ + ": "@
            + detail@),
        os_code != Some(1i32) ==> (e matches Error::Io(m) && m@ == detail@),
{
    let eperm = libc_eperm();
    match os_code {
        Some(c) if c == eperm => {
            let mut m = chars_of(context);
            push_str(&mut m, ": ");
            push_str(&mut m, detail);
            Error::Privilege(string_of(&m))
        },
        _ => Error::Io(string_of(&chars_of(detail))),
    }
}

/// The address an ICMP echo goes to: IPv4 only.
pub fn icmp_target(ip: &IpAddr) -> (r: Result<Ipv4Addr, Error>)
    ensures
        match *ip {
            IpAddr::V4(a) => r == Ok::<Ipv4Addr, Error>(a),
            IpAddr::V6(_) => r matches Err(Error::Other(m)) && m@
                == "ICMPv6 echo not implemented"@,
        },
{
    match ip {
        IpAddr::V4(v) => Ok(*v),
        IpAddr::V6(_) => Err(Error::Other(string_of(&chars_of("ICMPv6 echo not implemented")))),
    }
}

/// The outcome of an ICMP echo probe: up when a reply came back.
pub fn icmp_outcome(replied: bool, rtt: TimeSpan) -> (o: DiscoveryOutcome)
    ensures
        replied ==> o.state == HostState::Up && o.reason@ == "icmp-echo-reply"@ && o.rtt == Some(
            rtt,
        ),
        !replied ==> o.state == HostState::Down && o.reason@ == "no-icmp-reply"@ && o.rtt
            is None,
{
    if replied {
        DiscoveryOutcome {
            state: HostState::Up,
            reason: string_of(&chars_of("icmp-echo-reply")),
            rtt: Some(rtt),
        }
    } else {
        DiscoveryOutcome {
            state: HostState::Down,
            reason: string_of(&chars_of("no-icmp-reply")),
            rtt: None,
        }
    }
}

// ---------------------------------------------------------------- TCP ping

/// What one TCP connection attempt produced.
#[derive(Debug, Clone, Copy, PartialEq, Eq)]
pub enum ProbeAnswer {
    /// The connection was established after this long.
    Connected(TimeSpan),
    /// Refused or reset: the host's stack answered.
    Refused,
    /// Timed out or failed otherwise.
    NoAnswer,
}

/// TCP ping: try to connect to each port in turn. First success → Up.
/// Any RST → Up (closed RST means stack responded). All timeout → Down.
#[derive(Debug, Clone)]
pub struct TcpPing {
    pub ports: Vec<u16>,
    /// Index of the next port to probe.
    pub next: usize,
    /// Whether some probe so far was refused.
    pub any_rst: bool,
}

/// What the TCP ping wants done next.
#[derive(Debug, Clone)]
pub enum TcpPingStep {
    /// Connect to this port and report the answer with `record`.
    Probe(u16),
    /// No port is left to probe: this is the outcome.
    Finished(DiscoveryOutcome),
}

/// Whether `answers` holds a refusal.
pub open spec fn some_refused(answers: Seq<ProbeAnswer>) -> bool {
    exists|i: int| 0 <= i < answers.len() && answers[i] == ProbeAnswer::Refused
}

impl TcpPing {
    pub open spec fn wf(&self) -> bool {
        self.next <= self.ports@.len()
    }

    pub fn new(ports: &[u16]) -> (t: TcpPing)
        ensures
            t.wf(),
            t.ports@ == ports@,
            t.next == 0,
            !t.any_rst,
    {
        let mut v: Vec<u16> = Vec::new();
        let mut i: usize = 0;
        while i < ports.len()
            invariant
                i <= ports.len(),
                v@ == ports@.take(i as int),
            decreases ports.len() - i,
        {
            v.push(ports[i]);
            i = i + 1;
            assert(v@ =~= ports@.take(i as int));
        }
        assert(v@ =~= ports@);
        TcpPing { ports: v, next: 0, any_rst: false }
    }

    /// The next probe, or the outcome once every port has been tried.
    pub fn step(&self) -> (s: TcpPingStep)
        requires
            self.wf(),
        ensures
            self.next < self.ports@.len() ==> (s matches TcpPingStep::Probe(p) && p
                == self.ports@[self.next as int]),
            self.next >= self.ports@.len() && self.any_rst ==> (s matches TcpPingStep::Finished(o)
                && o.state == HostState::Up && o.reason@ == "tcp-rst"@ && o.rtt is None),
            self.next >= self.ports@.len() && !self.any_rst ==> (s matches TcpPingStep::Finished(
                o,
            ) && o.state == HostState::Down && o.reason@ == "no-response"@ && o.rtt is None),
    {
        if self.next < self.ports.len() {
            TcpPingStep::Probe(self.ports[self.next])
        } else if self.any_rst {
            TcpPingStep::Finished(
                DiscoveryOutcome {
                    state: HostState::Up,
                    reason: string_of(&chars_of("tcp-rst")),
                    rtt: None,
                },
            )
        } else {
            TcpPingStep::Finished(
                DiscoveryOutcome {
                    state: HostState::Down,
                    reason: string_of(&chars_of("no-response")),
                    rtt: None,
                },
            )
        }
    }

    /// Records the answer to the probe of `ports[next]`. A connection ends
    /// the ping with its outcome; otherwise the ping moves to the next port.
    pub fn record(&mut self, answer: ProbeAnswer) -> (o: Option<DiscoveryOutcome>)
        requires
            old(self).wf(),
            old(self).next < old(self).ports@.len(),
        ensures
            final(self).wf(),
            final(self).ports@ == old(self).ports@,
            match answer {
                ProbeAnswer::Connected(rtt) => o matches Some(out) && out.state == HostState::Up
                    && out.reason@ == "tcp-syn-ack:"@ + dec(
                    old(self).ports@[old(self).next as int] as nat,
                ) && out.rtt == Some(rtt) && final(self).next == old(self).next
                    && final(self).any_rst == old(self).any_rst,
                ProbeAnswer::Refused => o is None && final(self).next == old(self).next + 1
                    && final(self).any_rst,
                ProbeAnswer::NoAnswer => o is None && final(self).next == old(self).next + 1
                    && final(self).any_rst == old(self).any_rst,
            },
    {
        let n = self.ports.len();
        assert(self.next < n);
        match answer {
            ProbeAnswer::Connected(rtt) => {
                let p = self.ports[self.next];
                let mut m = chars_of("tcp-syn-ack:");
                push_dec(&mut m, p as u64);
                Some(DiscoveryOutcome { state: HostState::Up, reason: string_of(&m), rtt: Some(rtt) })
            },
            ProbeAnswer::Refused => {
                self.any_rst = true;
                self.next = self.next + 1;
                None
            },
            ProbeAnswer::NoAnswer => {
                self.next = self.next + 1;
                None
            },
        }
    }
}

/// A run of TCP-ping states, each produced from the one before by `record`
/// of an answer that did not connect: the refusal flag becomes set by a
/// refusal and is otherwise kept.
pub open spec fn ping_run(states: Seq<TcpPing>, answers: Seq<ProbeAnswer>) -> bool {
    &&& states.len() == answers.len() + 1
    &&& forall|i: int|
        #![trigger answers[i]]
        0 <= i < answers.len() ==> !(answers[i] is Connected) && states[i + 1].any_rst == (
        states[i].any_rst || answers[i] == ProbeAnswer::Refused)
}

/// A TCP ping none of whose probes connected ends up (`any_rst` set, so
/// `step` finishes with `HostState::Up`) exactly when some probe was
/// refused, and down when they all went unanswered.
pub proof fn law_tcp_ping_rst_means_up(states: Seq<TcpPing>, answers: Seq<ProbeAnswer>)
    requires
        ping_run(states, answers),
        !states[0].any_rst,
    ensures
        states.last().any_rst == some_refused(answers),
    decreases answers.len(),
{
    if answers.len() > 0 {
        let k = answers.len() - 1;
        let s2 = states.drop_last();
        let a2 = answers.drop_last();
        assert forall|i: int| #![trigger a2[i]] 0 <= i < a2.len() implies !(a2[i] is Connected)
            && s2[i + 1].any_rst == (s2[i].any_rst || a2[i] == ProbeAnswer::Refused) by {
            assert(s2[i + 1] == states[i + 1] && s2[i] == states[i] && a2[i] == answers[i]);
            assert(states[i + 1].any_rst == (states[i].any_rst || answers[i]
                == ProbeAnswer::Refused));
        }
        assert(s2[0] == states[0]);
        assert(s2.len() == a2.len() + 1);
        law_tcp_ping_rst_means_up(s2, a2);
        assert(states[k + 1].any_rst == (states[k].any_rst || answers[k] == ProbeAnswer::Refused));
        if some_refused(a2) {
            let i = choose|i: int| 0 <= i < a2.len() && a2[i] == ProbeAnswer::Refused;
            assert(answers[i] == ProbeAnswer::Refused);
        }
        if some_refused(answers) && answers[k] != ProbeAnswer::Refused {
            let i = choose|i: int| 0 <= i < answers.len() && answers[i] == ProbeAnswer::Refused;
            assert(a2[i] == ProbeAnswer::Refused);
        }
        if answers[k] == ProbeAnswer::Refused {
            assert(some_refused(answers));
        }
    }
}

} // verus!
