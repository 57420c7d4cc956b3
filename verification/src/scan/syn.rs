//! TCP SYN ("half-open") scan packets. For each port:
//!   1. Build IP+TCP SYN packet with our source IP and a random ephemeral
//!      source port + sequence number.
//!   2. Send via raw IP socket (IPPROTO_TCP).
//!   3. Wait for response: SYN-ACK → open (we send a RST, not ACK).
//!      RST → closed. Timeout → filtered.
use crate::addr::Ipv4Addr;
use crate::checksum::{
    checksum16, checksum_of, law_checksum_verifies, lemma_word_total_bound, put_word,
    with_checksum,
};
use crate::discovery::{be16, push_be16, push_bytes, set_be16};
use crate::result::{PortResult, PortState};
use crate::scan::{is_tcp_result, tcp_result};
use crate::text::{chars_of, string_of};
use rand::Rng;
use vstd::prelude::*;

verus! {

/// A uniformly random `u16` (`rand::thread_rng().gen::<u16>()`).
#[verifier::external_body]
fn random_u16() -> (r: u16) {
    rand::thread_rng().gen::<u16>()
}

/// A uniformly random `u32` (`rand::thread_rng().gen::<u32>()`).
#[verifier::external_body]
fn random_u32() -> (r: u32) {
    rand::thread_rng().gen::<u32>()
}

/// A uniformly random value of `lo..=hi` (`gen_range`), which panics on an
/// empty range.
#[verifier::external_body]
fn random_in(lo: u16, hi: u16) -> (r: u16)
    requires
        lo <= hi,
    ensures
        lo <= r <= hi,
{
    rand::thread_rng().gen_range(lo..=hi)
}

/// Big-endian bytes of a 32-bit value.
pub open spec fn be32(v: u32) -> Seq<u8> {
    seq![
        (v / 16777216) as u8,
        ((v / 65536) % 256) as u8,
        ((v / 256) % 256) as u8,
        (v % 256) as u8,
    ]
}

pub fn push_be32(out: &mut Vec<u8>, v: u32)
    ensures
        final(out)@ == old(out)@ + be32(v),
{
    out.push((v / 16777216) as u8);
    out.push(((v / 65536) % 256) as u8);
    out.push(((v / 256) % 256) as u8);
    out.push((v % 256) as u8);
    assert(out@ =~= old(out)@ + be32(v));
}

pub open spec fn octets(a: Ipv4Addr) -> Seq<u8> {
    seq![a.a, a.b, a.c, a.d]
}

pub fn push_octets(out: &mut Vec<u8>, a: Ipv4Addr)
    ensures
        final(out)@ == old(out)@ + octets(a),
{
    out.push(a.a);
    out.push(a.b);
    out.push(a.c);
    out.push(a.d);
    assert(out@ =~= old(out)@ + octets(a));
}

/// IPv4 header (version 4, IHL 5, DF, TTL 64, protocol TCP) before its
/// checksum is filled in. The total length is taken modulo 2^16 as the
/// `u16` cast does.
pub open spec fn ipv4_unsummed(src: Ipv4Addr, dst: Ipv4Addr, payload_len: nat, id: u16) -> Seq<
    u8,
> {
    seq![0x45u8, 0u8] + be16((20 + payload_len % 65536) as u16) + be16(id) + seq![
        0x40u8,
        0u8,
        64u8,
        6u8,
        0u8,
        0u8,
    ] + octets(src) + octets(dst)
}

/// The IPv4 header with its checksum at byte 10.
pub open spec fn ipv4_header(src: Ipv4Addr, dst: Ipv4Addr, payload_len: nat, id: u16) -> Seq<
    u8,
> {
    with_checksum(ipv4_unsummed(src, dst, payload_len, id), 10)
}

/// The IPv4 header for a payload of `payload_len` bytes and datagram id `id`.
pub fn build_ipv4_with_id(src: Ipv4Addr, dst: Ipv4Addr, payload_len: usize, id: u16) -> (h: Vec<
    u8,
>)
    requires
        payload_len % 65536 <= 65515,
    ensures
        h@ == ipv4_header(src, dst, payload_len as nat, id),
{
    let total: u16 = 20 + ((payload_len % 65536) as u16);
    let mut h: Vec<u8> = Vec::new();
    h.push(0x45);  // ver=4, ihl=5
    h.push(0x00);  // tos
    push_be16(&mut h, total);
    push_be16(&mut h, id);
    h.push(0x40);  // flags=DF, frag=0
    h.push(0x00);
    h.push(64);  // ttl
    h.push(6);  // proto = TCP
    h.push(0);  // checksum
    h.push(0);
    push_octets(&mut h, src);
    push_octets(&mut h, dst);
    assert(h@ =~= ipv4_unsummed(src, dst, payload_len as nat, id));
    let csum = checksum16(h.as_slice());
    set_be16(&mut h, 10, csum);
    h
}

/// The IPv4 header for `payload` with a random datagram id.
pub fn build_ipv4(src: Ipv4Addr, dst: Ipv4Addr, payload: &[u8]) -> (h: Vec<u8>)
    requires
        payload@.len() % 65536 <= 65515,
    ensures
        exists|id: u16| h@ == ipv4_header(src, dst, payload@.len(), id),
{
    let id = random_u16();
    build_ipv4_with_id(src, dst, payload.len(), id)
}

/// TCP header (data offset 5, no options) before its checksum is filled in.
pub open spec fn tcp_unsummed(sp: u16, dp: u16, seq: u32, ack: u32, flags: u8, win: u16) -> Seq<
    u8,
> {
    be16(sp) + be16(dp) + be32(seq) + be32(ack) + seq![0x50u8, flags] + be16(win) + seq![
        0u8,
        0u8,
        0u8,
        0u8,
    ]
}

/// The bytes the TCP checksum covers: the pseudo-header (source, destination,
/// zero, protocol 6, TCP length modulo 2^16) and the segment, padded to even
/// length.
pub open spec fn pseudo_buffer(src: Ipv4Addr, dst: Ipv4Addr, tcp: Seq<u8>) -> Seq<u8> {
    let b = octets(src) + octets(dst) + seq![0u8, 6u8] + be16((tcp.len() % 65536) as u16) + tcp;
    if b.len() % 2 != 0 {
        b.push(0u8)
    } else {
        b
    }
}

pub open spec fn tcp_checksum_of(src: Ipv4Addr, dst: Ipv4Addr, tcp: Seq<u8>) -> u16 {
    checksum_of(pseudo_buffer(src, dst, tcp))
}

pub fn tcp_checksum(src: Ipv4Addr, dst: Ipv4Addr, tcp: &[u8]) -> (c: u16)
    ensures
        c == tcp_checksum_of(src, dst, tcp@),
{
    let mut buf: Vec<u8> = Vec::new();
    push_octets(&mut buf, src);
    push_octets(&mut buf, dst);
    buf.push(0);
    buf.push(6);
    push_be16(&mut buf, (tcp.len() % 65536) as u16);
    push_bytes(&mut buf, tcp);
    let ghost b = buf@;
    assert(b =~= octets(src) + octets(dst) + seq![0u8, 6u8] + be16((tcp@.len() % 65536) as u16)
        + tcp@);
    if buf.len() % 2 != 0 {
        buf.push(0);
    }
    checksum16(buf.as_slice())
}

/// A TCP segment with its checksum at byte 16.
pub open spec fn tcp_segment(
    src: Ipv4Addr,
    dst: Ipv4Addr,
    sp: u16,
    dp: u16,
    seq: u32,
    ack: u32,
    flags: u8,
    win: u16,
) -> Seq<u8> {
    let t = tcp_unsummed(sp, dp, seq, ack, flags, win);
    put_word(t, 16, tcp_checksum_of(src, dst, t))
}

pub fn build_tcp(
    src: Ipv4Addr,
    dst: Ipv4Addr,
    sp: u16,
    dp: u16,
    seq: u32,
    ack: u32,
    flags: u8,
    win: u16,
) -> (t: Vec<u8>)
    ensures
        t@ == tcp_segment(src, dst, sp, dp, seq, ack, flags, win),
{
    let mut t: Vec<u8> = Vec::new();
    push_be16(&mut t, sp);
    push_be16(&mut t, dp);
    push_be32(&mut t, seq);
    push_be32(&mut t, ack);
    t.push(0x50);  // data offset = 5 → 20 bytes
    t.push(flags);
    push_be16(&mut t, win);
    t.push(0);  // checksum placeholder
    t.push(0);
    t.push(0);  // urgent ptr
    t.push(0);
    assert(t@ =~= tcp_unsummed(sp, dp, seq, ack, flags, win));
    let csum = tcp_checksum(src, dst, t.as_slice());
    set_be16(&mut t, 16, csum);
    t
}

/// Concatenation of two byte vectors.
fn concat_bytes(a: Vec<u8>, b: &Vec<u8>) -> (r: Vec<u8>)
    ensures
        r@ == a@ + b@,
{
    let mut r = a;
    push_bytes(&mut r, b.as_slice());
    r
}

/// A SYN probe: IPv4 header (random id) followed by a TCP SYN segment with
/// window 65535.
pub fn build_syn_packet(src: Ipv4Addr, dst: Ipv4Addr, sp: u16, dp: u16, seq: u32) -> (p: Vec<u8>)
    ensures
        exists|id: u16|
            p@ == ipv4_header(src, dst, 20, id) + tcp_segment(
                src,
                dst,
                sp,
                dp,
                seq,
                0,
                0x02,
                0xFFFF,
            ),
{
    let tcp = build_tcp(src, dst, sp, dp, seq, 0, 0x02, 0xFFFF);  // SYN, win=65535
    let ip = build_ipv4(src, dst, tcp.as_slice());
    concat_bytes(ip, &tcp)
}

/// The reset sent after a SYN-ACK, so the half-open connection is torn down.
pub fn build_rst_packet(src: Ipv4Addr, dst: Ipv4Addr, sp: u16, dp: u16, ack_we_got: u32) -> (p:
    Vec<u8>)
    ensures
        exists|id: u16|
            p@ == ipv4_header(src, dst, 20, id) + tcp_segment(
                src,
                dst,
                sp,
                dp,
                ack_we_got,
                0,
                0x04,
                0,
            ),
{
    let tcp = build_tcp(src, dst, sp, dp, ack_we_got, 0, 0x04, 0);  // RST
    let ip = build_ipv4(src, dst, tcp.as_slice());
    concat_bytes(ip, &tcp)
}

/// Big-endian word of `buf` at `i`.
pub open spec fn word16(buf: Seq<u8>, i: int) -> u16 {
    (buf[i] as nat * 256 + buf[i + 1] as nat) as u16
}

/// Big-endian double word of `buf` at `i`.
pub open spec fn word32(buf: Seq<u8>, i: int) -> u32 {
    (((buf[i] as nat * 256 + buf[i + 1] as nat) * 256 + buf[i + 2] as nat) * 256 + buf[i
        + 3] as nat) as u32
}

/// The TCP fields (source port, destination port, flags, sequence, ack) of an
/// IPv4 datagram from `expect_src` to `expect_dst` that carries TCP.
pub open spec fn tcp_in_ipv4(buf: Seq<u8>, expect_src: Ipv4Addr, expect_dst: Ipv4Addr) -> Option<
    (u16, u16, u8, u32, u32),
> {
    if buf.len() < 20 {
        None
    } else {
        let ihl = (buf[0] % 16) as int * 4;
        if buf.len() < ihl + 20 || buf[9] != 6 {
            None
        } else if (Ipv4Addr { a: buf[12], b: buf[13], c: buf[14], d: buf[15] }) != expect_src || (
        Ipv4Addr { a: buf[16], b: buf[17], c: buf[18], d: buf[19] }) != expect_dst {
            None
        } else {
            Some(
                (
                    word16(buf, ihl),
                    word16(buf, ihl + 2),
                    buf[ihl + 13],
                    word32(buf, ihl + 4),
                    word32(buf, ihl + 8),
                ),
            )
        }
    }
}

fn get_word16(buf: &[u8], i: usize) -> (w: u16)
    requires
        i + 1 < buf@.len(),
    ensures
        w == word16(buf@, i as int),
{
    ((buf[i] as u16) * 256 + buf[i + 1] as u16)
}

fn get_word32(buf: &[u8], i: usize) -> (w: u32)
    requires
        i + 3 < buf@.len(),
    ensures
        w == word32(buf@, i as int),
{
    (((buf[i] as u32) * 256 + buf[i + 1] as u32) * 256 + buf[i + 2] as u32) * 256 + buf[i
        + 3] as u32
}

pub fn parse_tcp_in_ipv4(buf: &[u8], expect_src: Ipv4Addr, expect_dst: Ipv4Addr) -> (r: Option<
    (u16, u16, u8, u32, u32),
>)
    ensures
        r == tcp_in_ipv4(buf@, expect_src, expect_dst),
{
    if buf.len() < 20 {
        return None;
    }
    let ihl = ((buf[0] % 16) as usize) * 4;
    if buf.len() < ihl + 20 || buf[9] != 6 {
        return None;
    }
    let s = Ipv4Addr::new(buf[12], buf[13], buf[14], buf[15]);
    let d = Ipv4Addr::new(buf[16], buf[17], buf[18], buf[19]);
    if s != expect_src || d != expect_dst {
        return None;
    }
    let sp = get_word16(buf, ihl);
    let dp = get_word16(buf, ihl + 2);
    let seq = get_word32(buf, ihl + 4);
    let ack = get_word32(buf, ihl + 8);
    let flags = buf[ihl + 13];
    Some((sp, dp, flags, seq, ack))
}

/// What a datagram received during a SYN probe says about the port.
#[derive(Debug, Clone, Copy, PartialEq, Eq)]
pub enum SynVerdict {
    /// SYN+ACK: open; the acknowledgement number is echoed in the reset.
    Open(u32),
    /// RST: closed.
    Closed,
    /// Not an answer to this probe.
    Unrelated,
}

pub open spec fn syn_verdict_of(
    buf: Seq<u8>,
    target: Ipv4Addr,
    src_ip: Ipv4Addr,
    port: u16,
    src_port: u16,
) -> SynVerdict {
    match tcp_in_ipv4(buf, target, src_ip) {
        Some((sp, dp, flags, _seq, ack)) => if sp == port && dp == src_port {
            if flags & 0x12u8 == 0x12u8 {
                SynVerdict::Open(ack)
            } else if flags & 0x04u8 == 0x04u8 {
                SynVerdict::Closed
            } else {
                SynVerdict::Unrelated
            }
        } else {
            SynVerdict::Unrelated
        },
        None => SynVerdict::Unrelated,
    }
}

/// Classifies a datagram read from the raw socket while waiting for the
/// answer from `target:port` to our probe from `src_ip:src_port`.
pub fn syn_verdict(buf: &[u8], target: Ipv4Addr, src_ip: Ipv4Addr, port: u16, src_port: u16) -> (v:
    SynVerdict)
    ensures
        v == syn_verdict_of(buf@, target, src_ip, port, src_port),
{
    match parse_tcp_in_ipv4(buf, target, src_ip) {
        Some((sp, dp, flags, _seq, ack)) => {
            if sp == port && dp == src_port {
                if flags & 0x12 == 0x12 {
                    SynVerdict::Open(ack)
                } else if flags & 0x04 == 0x04 {
                    SynVerdict::Closed
                } else {
                    SynVerdict::Unrelated
                }
            } else {
                SynVerdict::Unrelated
            }
        },
        None => SynVerdict::Unrelated,
    }
}

/// The port result a verdict settles, given the time since the probe was
/// sent; `None` while the answer is still awaited.
pub fn syn_result(port: u16, verdict: SynVerdict, rtt_ms: u64) -> (r: Option<PortResult>)
    ensures
        match verdict {
            SynVerdict::Open(_) => r matches Some(p) && is_tcp_result(
                p,
                port,
                PortState::Open,
                "syn-ack"@,
                Some(rtt_ms),
            ),
            SynVerdict::Closed => r matches Some(p) && is_tcp_result(
                p,
                port,
                PortState::Closed,
                "rst"@,
                Some(rtt_ms),
            ),
            SynVerdict::Unrelated => r is None,
        },
{
    match verdict {
        SynVerdict::Open(_) => Some(
            tcp_result(port, PortState::Open, string_of(&chars_of("syn-ack")), Some(rtt_ms)),
        ),
        SynVerdict::Closed => Some(
            tcp_result(port, PortState::Closed, string_of(&chars_of("rst")), Some(rtt_ms)),
        ),
        SynVerdict::Unrelated => None,
    }
}

/// The result when no answer came before the deadline: filtered.
pub fn syn_timeout_result(port: u16) -> (r: PortResult)
    ensures
        is_tcp_result(r, port, PortState::Filtered, "no-response"@, None),
{
    tcp_result(port, PortState::Filtered, string_of(&chars_of("no-response")), None)
}

/// One SYN probe: the ephemeral source port, initial sequence number and the
/// packet that carries them.
#[derive(Debug, Clone)]
pub struct SynProbe {
    pub src_port: u16,
    pub seq: u32,
    pub packet: Vec<u8>,
}

/// Picks a random source port in 32768..=65535 and a random sequence number,
/// and builds the SYN to `target:port`.
pub fn syn_probe(src_ip: Ipv4Addr, target: Ipv4Addr, port: u16) -> (p: SynProbe)
    ensures
        32768 <= p.src_port <= 65535,
        exists|id: u16|
            p.packet@ == ipv4_header(src_ip, target, 20, id) + tcp_segment(
                src_ip,
                target,
                p.src_port,
                port,
                p.seq,
                0,
                0x02,
                0xFFFF,
            ),
{
    let src_port = random_in(32768, 65535);
    let seq = random_u32();
    let packet = build_syn_packet(src_ip, target, src_port, port, seq);
    SynProbe { src_port, seq, packet }
}

/// Every TCP segment built here checksums to zero against its pseudo-header,
/// so the receiver's check passes.
pub proof fn law_tcp_segment_checksum_valid(
    src: Ipv4Addr,
    dst: Ipv4Addr,
    sp: u16,
    dp: u16,
    seq: u32,
    ack: u32,
    flags: u8,
    win: u16,
)
    ensures
        tcp_checksum_of(src, dst, tcp_segment(src, dst, sp, dp, seq, ack, flags, win)) == 0,
{
    let t = tcp_unsummed(sp, dp, seq, ack, flags, win);
    let c = tcp_checksum_of(src, dst, t);
    let seg = put_word(t, 16, c);
    let pre = octets(src) + octets(dst) + seq![0u8, 6u8] + be16(20u16);
    assert(t.len() == 20);
    assert(seg.len() == 20);
    assert(pseudo_buffer(src, dst, t) =~= pre + t);
    assert(pseudo_buffer(src, dst, seg) =~= pre + seg);
    assert(pre + seg =~= put_word(pre + t, 28, c));
    lemma_word_total_bound(pre + t);
    law_checksum_verifies(pre + t, 28);
}

proof fn lemma_word16_of_be16(buf: Seq<u8>, i: int, v: u16)
    requires
        0 <= i,
        i + 1 < buf.len(),
        buf[i] == be16(v)[0],
        buf[i + 1] == be16(v)[1],
    ensures
        word16(buf, i) == v,
{
}

proof fn lemma_word32_of_be32(buf: Seq<u8>, i: int, v: u32)
    requires
        0 <= i,
        i + 3 < buf.len(),
        buf[i] == be32(v)[0],
        buf[i + 1] == be32(v)[1],
        buf[i + 2] == be32(v)[2],
        buf[i + 3] == be32(v)[3],
    ensures
        word32(buf, i) == v,
{
    let a = v / 16777216;
    let b = (v / 65536) % 256;
    let c = (v / 256) % 256;
    let d = v % 256;
    assert(((a * 256 + b) * 256 + c) * 256 + d == v) by (nonlinear_arith)
        requires
            a == v / 16777216,
            b == (v / 65536) % 256,
            c == (v / 256) % 256,
            d == v % 256,
    ;
}

/// What the SYN scan reads back from a datagram is what the builders wrote
/// into it: an IPv4 header followed by a TCP segment from `src` to `dst`
/// parses to the segment's ports, flags, sequence and acknowledgement.
pub proof fn law_parse_reads_built_segment(
    src: Ipv4Addr,
    dst: Ipv4Addr,
    id: u16,
    sp: u16,
    dp: u16,
    seq: u32,
    ack: u32,
    flags: u8,
    win: u16,
)
    ensures
        tcp_in_ipv4(
            ipv4_header(src, dst, 20, id) + tcp_segment(src, dst, sp, dp, seq, ack, flags, win),
            src,
            dst,
        ) == Some((sp, dp, flags, seq, ack)),
{
    let h = ipv4_header(src, dst, 20, id);
    let u = tcp_unsummed(sp, dp, seq, ack, flags, win);
    let t = tcp_segment(src, dst, sp, dp, seq, ack, flags, win);
    let buf = h + t;
    let hu = ipv4_unsummed(src, dst, 20, id);
    assert(hu.len() == 20);
    assert(u.len() == 20);
    assert(h.len() == 20);
    assert(t.len() == 20);
    assert(buf[0] == 0x45u8);
    assert(buf[9] == 6u8);
    assert(buf[12] == src.a && buf[13] == src.b && buf[14] == src.c && buf[15] == src.d);
    assert(buf[16] == dst.a && buf[17] == dst.b && buf[18] == dst.c && buf[19] == dst.d);
    assert((Ipv4Addr { a: buf[12], b: buf[13], c: buf[14], d: buf[15] }) == src);
    assert((Ipv4Addr { a: buf[16], b: buf[17], c: buf[18], d: buf[19] }) == dst);
    assert((buf[0] % 16) as int * 4 == 20);
    assert forall|k: int| 0 <= k < 16 implies #[trigger] buf[20 + k] == u[k] by {
        assert(buf[20 + k] == t[k]);
    }
    assert(u[0] == be16(sp)[0] && u[1] == be16(sp)[1]);
    assert(buf[20] == u[0] && buf[21] == u[1]);
    lemma_word16_of_be16(buf, 20, sp);
    assert(buf[22] == u[2] && buf[23] == u[3]);
    lemma_word16_of_be16(buf, 22, dp);
    assert(buf[24] == u[4] && buf[25] == u[5] && buf[26] == u[6] && buf[27] == u[7]);
    lemma_word32_of_be32(buf, 24, seq);
    assert(buf[28] == u[8] && buf[29] == u[9] && buf[30] == u[10] && buf[31] == u[11]);
    lemma_word32_of_be32(buf, 28, ack);
    assert(buf[33] == u[13]);
}

/// A SYN+ACK from the probed port back to the probe's source port reads as
/// open, with its acknowledgement number; a RST+ACK reads as closed.
pub proof fn law_answers_to_the_probe_decide(
    target: Ipv4Addr,
    me: Ipv4Addr,
    id: u16,
    port: u16,
    src_port: u16,
    seq: u32,
    ack: u32,
    win: u16,
)
    ensures
        syn_verdict_of(
            ipv4_header(target, me, 20, id) + tcp_segment(target, me, port, src_port, seq, ack, 0x12, win),
            target,
            me,
            port,
            src_port,
        ) == SynVerdict::Open(ack),
        syn_verdict_of(
            ipv4_header(target, me, 20, id) + tcp_segment(target, me, port, src_port, seq, ack, 0x14, win),
            target,
            me,
            port,
            src_port,
        ) == SynVerdict::Closed,
{
    law_parse_reads_built_segment(target, me, id, port, src_port, seq, ack, 0x12, win);
    law_parse_reads_built_segment(target, me, id, port, src_port, seq, ack, 0x14, win);
    assert(0x12u8 & 0x12u8 == 0x12u8) by (bit_vector);
    assert(0x14u8 & 0x12u8 != 0x12u8) by (bit_vector);
    assert(0x14u8 & 0x04u8 == 0x04u8) by (bit_vector);
}

/// Every IPv4 header built here checksums to zero.
pub proof fn law_ipv4_header_checksum_valid(
    src: Ipv4Addr,
    dst: Ipv4Addr,
    payload_len: nat,
    id: u16,
)
    ensures
        checksum_of(ipv4_header(src, dst, payload_len, id)) == 0,
{
    let h = ipv4_unsummed(src, dst, payload_len, id);
    assert(h.len() == 20);
    lemma_word_total_bound(h);
    law_checksum_verifies(h, 10);
}

} // verus!
