//! Decisions of the command-line front end: Nmap-style argument rewriting,
//! timing overrides, per-host discovery and scan choices, and where a host's
//! display name comes from.
use crate::addr::{ip_text, IpAddr, Ipv4Addr};
use crate::error::Error;
use crate::ports::{lists_sorted, port_spec_result, PortSpec};
use crate::result::{HostState, PortState};
use crate::text::{chars_of, slice_of, string_of};
use crate::timing::{TimeSpan, Timing};
use vstd::prelude::*;

verus! {

/// The two-letter Nmap flags written with one dash (`-Pn`, `-sV`, `-oA`, ...).
pub open spec fn is_nmap_flag(t: Seq<char>) -> bool {
    t.len() == 2 && {
        let (a, b) = (t[0], t[1]);
        ||| a == 'P' && (b == 'n' || b == 'E' || b == 'S' || b == 'A' || b == 'U' || b == 'R')
        ||| a == 's' && (b == 'S' || b == 'T' || b == 'U' || b == 'V' || b == 'N' || b == 'F'
            || b == 'X' || b == 'A' || b == 'W' || b == 'M' || b == 'O' || b == 'Y')
        ||| a == 'o' && (b == 'N' || b == 'X' || b == 'J' || b == 'G' || b == 'A' || b == 'S')
    }
}

fn nmap_flag(a: char, b: char) -> (r: bool)
    ensures
        r == is_nmap_flag(seq![a, b]),
{
    (a == 'P' && (b == 'n' || b == 'E' || b == 'S' || b == 'A' || b == 'U' || b == 'R')) || (a
        == 's' && (b == 'S' || b == 'T' || b == 'U' || b == 'V' || b == 'N' || b == 'F' || b
        == 'X' || b == 'A' || b == 'W' || b == 'M' || b == 'O' || b == 'Y')) || (a == 'o' && (b
        == 'N' || b == 'X' || b == 'J' || b == 'G' || b == 'A' || b == 'S'))
}

/// Number of bytes UTF-8 uses for `c`.
pub open spec fn utf8_width(c: char) -> nat {
    if (c as u32) < 0x80 {
        1
    } else if (c as u32) < 0x800 {
        2
    } else if (c as u32) < 0x10000 {
        3
    } else {
        4
    }
}

/// An argument the byte-indexed slicing `&a[1..3]` cannot cut: one that
/// starts with a single dash and whose byte 3 falls inside a character.
pub open spec fn cut_inside_char(a: Seq<char>) -> bool {
    &&& a.len() >= 2
    &&& a[0] == '-'
    &&& a[1] != '-'
    &&& !((utf8_width(a[1]) == 1 && (a.len() == 2 || utf8_width(a[2]) == 1)) || utf8_width(a[1])
        == 2)
}

fn utf8_len(c: char) -> (n: u32)
    ensures
        n == utf8_width(c),
{
    let u = c as u32;
    if u < 0x80 {
        1
    } else if u < 0x800 {
        2
    } else if u < 0x10000 {
        3
    } else {
        4
    }
}

/// Whether `rewrite_nmap_args` would have to cut a character of this
/// argument in two (an argument it does not accept).
pub fn cuts_inside_char(a: &str) -> (b: bool)
    ensures
        b == cut_inside_char(a@),
{
    let v = chars_of(a);
    let n = v.len();
    if n < 2 || v[0] != '-' || v[1] == '-' {
        return false;
    }
    let w1 = utf8_len(v[1]);
    let ok = (w1 == 1 && (n == 2 || utf8_len(v[2]) == 1)) || w1 == 2;
    !ok
}

/// What one argument becomes: `-Pn` → `--Pn`; `-PS22,80` → `--PS`, `22,80`;
/// anything else stays.
pub open spec fn rewrite_arg(a: Seq<char>) -> Seq<Seq<char>> {
    if a.len() == 3 && a[0] == '-' && a[1] != '-' && is_nmap_flag(a.skip(1)) {
        seq![seq!['-', '-'] + a.skip(1)]
    } else if a.len() > 3 && a[0] == '-' && a[1] != '-' && is_nmap_flag(a.subrange(1, 3)) {
        seq![seq!['-', '-'] + a.subrange(1, 3), a.skip(3)]
    } else {
        seq![a]
    }
}

/// Each of the Nmap flags Pn PE PS PA PU PR, sS sT sU sV sN sF sX sA sW sM
/// sO sY, oN oX oJ oG oA oS written with one dash becomes its long form with
/// two dashes, and the same flag with a value glued to it is split into the
/// long flag and the value.
pub proof fn law_nmap_flags_take_two_dashes(a: char, b: char, value: Seq<char>)
    requires
        ((a == 'P' && b == 'n')
            || (a == 'P' && b == 'E')
            || (a == 'P' && b == 'S')
            || (a == 'P' && b == 'A')
            || (a == 'P' && b == 'U')
            || (a == 'P' && b == 'R')
            || (a == 's' && b == 'S')
            || (a == 's' && b == 'T')
            || (a == 's' && b == 'U')
            || (a == 's' && b == 'V')
            || (a == 's' && b == 'N')
            || (a == 's' && b == 'F')
            || (a == 's' && b == 'X')
            || (a == 's' && b == 'A')
            || (a == 's' && b == 'W')
            || (a == 's' && b == 'M')
            || (a == 's' && b == 'O')
            || (a == 's' && b == 'Y')
            || (a == 'o' && b == 'N')
            || (a == 'o' && b == 'X')
            || (a == 'o' && b == 'J')
            || (a == 'o' && b == 'G')
            || (a == 'o' && b == 'A')
            || (a == 'o' && b == 'S')),
    ensures
        rewrite_arg(seq!['-', a, b]) == seq![seq!['-', '-', a, b]],
        value.len() > 0 ==> rewrite_arg(seq!['-', a, b] + value) == seq![
            seq!['-', '-', a, b],
            value,
        ],
{
    let t = seq!['-', a, b];
    assert(t.skip(1) =~= seq![a, b]);
    assert(seq!['-', '-'] + t.skip(1) =~= seq!['-', '-', a, b]);
    if value.len() > 0 {
        let u = t + value;
        assert(u.subrange(1, 3) =~= seq![a, b]);
        assert(seq!['-', '-'] + u.subrange(1, 3) =~= seq!['-', '-', a, b]);
        assert(u.skip(3) =~= value);
        assert(u[0] == '-' && u[1] == a);
    }
}

/// All arguments, each rewritten, in order.
pub open spec fn rewrite_all(args: Seq<Seq<char>>) -> Seq<Seq<char>>
    decreases args.len(),
{
    if args.len() == 0 {
        Seq::empty()
    } else {
        rewrite_all(args.drop_last()) + rewrite_arg(args.last())
    }
}

pub open spec fn texts(v: Seq<String>) -> Seq<Seq<char>> {
    v.map_values(|s: String| s@)
}

/// Rewrites Nmap-style "single-dash compound" flags into the long form the
/// option parser expects: `-Pn`, `-sS`, `-sV`, `-oA file`, ... look to it
/// like `-P n`, `-s S`; they become `--Pn`, `--sS`, and `-PS22,80` becomes
/// `--PS 22,80`.
pub fn rewrite_nmap_args(input: Vec<String>) -> (out: Vec<String>)
    requires
        forall|i: int| 0 <= i < input@.len() ==> !cut_inside_char(#[trigger] input@[i]@),
    ensures
        texts(out@) == rewrite_all(texts(input@)),
{
    let mut out: Vec<String> = Vec::new();
    let mut i: usize = 0;
    while i < input.len()
        invariant
            i <= input.len(),
            texts(out@) == rewrite_all(texts(input@).take(i as int)),
        decreases input.len() - i,
    {
        let ghost before = texts(out@);
        let ghost t = texts(input@);
        assert(t.take(i + 1).drop_last() =~= t.take(i as int));
        assert(t.take(i + 1).last() == input@[i as int]@);
        let a = chars_of(input[i].as_str());
        let n = a.len();
        if n == 3 && a[0] == '-' && a[1] != '-' && nmap_flag(a[1], a[2]) {
            // `-Pn`, `-sV`, etc.
            let mut v: Vec<char> = Vec::new();
            v.push('-');
            v.push('-');
            v.push(a[1]);
            v.push(a[2]);
            assert(a@.skip(1) =~= seq![a@[1], a@[2]]);
            assert(v@ =~= seq!['-', '-'] + a@.skip(1));
            out.push(string_of(&v));
        } else if n > 3 && a[0] == '-' && a[1] != '-' && nmap_flag(a[1], a[2]) {
            // `-PS22,80` style (flag + immediate value, no space)
            let mut v: Vec<char> = Vec::new();
            v.push('-');
            v.push('-');
            v.push(a[1]);
            v.push(a[2]);
            assert(a@.subrange(1, 3) =~= seq![a@[1], a@[2]]);
            assert(v@ =~= seq!['-', '-'] + a@.subrange(1, 3));
            out.push(string_of(&v));
            let rest = slice_of(&a, 3, n);
            assert(rest@ =~= a@.skip(3));
            out.push(string_of(&rest));
        } else {
            proof {
                if n == 3 && a@[0] == '-' && a@[1] != '-' {
                    assert(a@.skip(1) =~= seq![a@[1], a@[2]]);
                }
                if n > 3 && a@[0] == '-' && a@[1] != '-' {
                    assert(a@.subrange(1, 3) =~= seq![a@[1], a@[2]]);
                }
            }
            out.push(string_of(&a));
        }
        assert(texts(out@) =~= before + rewrite_arg(input@[i as int]@));
        i = i + 1;
    }
    assert(texts(input@).take(input.len() as int) =~= texts(input@));
    out
}

/// Where a host's display name comes from.
#[derive(Debug, Clone)]
pub enum HostnameSource {
    /// This name.
    Known(String),
    /// A reverse lookup of the address (none if it fails).
    ReverseLookup,
    /// No name: reverse DNS is off (`-n`).
    NoName,
}

/// `127.0.0.1`.
pub open spec fn is_loopback_v4(ip: IpAddr) -> bool {
    ip == IpAddr::V4((Ipv4Addr { a: 127, b: 0, c: 0, d: 1 }))
}

/// The name given for a target is shown when it differs from the address's
/// text; otherwise the loopback address is `localhost`, and any other
/// address is looked up, unless reverse DNS is off (`-n`): then it has no
/// name.
pub fn hostname_source(label: &str, ip: &IpAddr, reverse_dns: bool) -> (r: HostnameSource)
    ensures
        label@ != ip_text(*ip) ==> (r matches HostnameSource::Known(n) && n@ == label@),
        label@ == ip_text(*ip) && is_loopback_v4(*ip) ==> (r matches HostnameSource::Known(n)
            && n@ == "localhost"@),
        label@ == ip_text(*ip) && !is_loopback_v4(*ip) && reverse_dns ==> r is ReverseLookup,
        label@ == ip_text(*ip) && !is_loopback_v4(*ip) && !reverse_dns ==> r is NoName,
{
    let l = chars_of(label);
    let t = chars_of(ip.to_string().as_str());
    let same = same_chars(&l, &t);
    if !same {
        return HostnameSource::Known(string_of(&l));
    }
    let lo = match ip {
        IpAddr::V4(a) => a.a == 127 && a.b == 0 && a.c == 0 && a.d == 1,
        IpAddr::V6(_) => false,
    };
    if lo {
        HostnameSource::Known(string_of(&chars_of("localhost")))
    } else if reverse_dns {
        HostnameSource::ReverseLookup
    } else {
        HostnameSource::NoName
    }
}

fn same_chars(a: &Vec<char>, b: &Vec<char>) -> (r: bool)
    ensures
        r == (a@ == b@),
{
    if a.len() != b.len() {
        return false;
    }
    let mut i: usize = 0;
    while i < a.len()
        invariant
            a.len() == b.len(),
            i <= a.len(),
            forall|j: int| 0 <= j < i ==> a@[j] == b@[j],
        decreases a.len() - i,
    {
        if a[i] != b[i] {
            return false;
        }
        i = i + 1;
    }
    assert(a@ =~= b@);
    true
}

/// The timing of a scan: the template, with the parallelism, the retries and
/// the host timeout (in seconds) replaced where given.
pub fn with_overrides(
    base: Timing,
    concurrency: Option<usize>,
    max_retries: Option<u32>,
    host_timeout_secs: Option<u64>,
) -> (t: Timing)
    ensures
        t.level == base.level,
        t.connect_timeout == base.connect_timeout,
        t.read_timeout == base.read_timeout,
        t.max_parallel == match concurrency {
            Some(c) => c,
            None => base.max_parallel,
        },
        t.max_retries == match max_retries {
            Some(r) => r,
            None => base.max_retries,
        },
        t.host_timeout == match host_timeout_secs {
            Some(s) => TimeSpan { secs: s, nanos: 0 },
            None => base.host_timeout,
        },
{
    let mut t = base;
    if let Some(c) = concurrency {
        t.max_parallel = c;
    }
    if let Some(r) = max_retries {
        t.max_retries = r;
    }
    if let Some(s) = host_timeout_secs {
        t.host_timeout = TimeSpan::from_secs(s);
    }
    t
}

/// The ports a TCP ping probes when none are given: 80, 443, 22, 3389.
pub fn default_ping_ports() -> (v: Vec<u16>)
    ensures
        v@ == seq![80u16, 443u16, 22u16, 3389u16],
{
    let mut v: Vec<u16> = Vec::new();
    v.push(80);
    v.push(443);
    v.push(22);
    v.push(3389);
    assert(v@ =~= seq![80u16, 443u16, 22u16, 3389u16]);
    v
}

/// At least one scan is in flight at a time.
pub fn semaphore_permits(max_parallel: usize) -> (n: usize)
    ensures
        n == if max_parallel >= 1 {
            max_parallel
        } else {
            1
        },
{
    if max_parallel >= 1 {
        max_parallel
    } else {
        1
    }
}

/// How a host's liveness is found out.
#[derive(Debug, Clone)]
pub enum DiscoveryPlan {
    /// `-Pn`: assume it is up.
    Skip,
    /// `-PE`: ICMP echo.
    Icmp,
    /// TCP ping on these ports.
    TcpPing(Vec<u16>),
}

/// The discovery of a host: skipped with `-Pn`, ICMP echo with `-PE`, else a
/// TCP ping on the `-PS` ports (80, 443, 22, 3389 when none are given); a
/// bad `-PS` spec is refused as `PortSpec::parse` refuses it.
pub fn discovery_plan(skip: bool, icmp: bool, ping_spec: Option<&str>) -> (r: Result<
    DiscoveryPlan,
    Error,
>)
    ensures
        skip ==> r matches Ok(DiscoveryPlan::Skip),
        !skip && icmp ==> r matches Ok(DiscoveryPlan::Icmp),
        !skip && !icmp && ping_spec is None ==> (r matches Ok(DiscoveryPlan::TcpPing(v)) && v@
            == seq![80u16, 443u16, 22u16, 3389u16]),
        !skip && !icmp && ping_spec is Some ==> match port_spec_result(ping_spec->0@) {
            Ok(s) => r matches Ok(DiscoveryPlan::TcpPing(v)) && lists_sorted(v@, s),
            Err(m) => r matches Err(Error::Ports(g, w)) && g@ == ping_spec->0@ && w@ == m,
        },
{
    if skip {
        Ok(DiscoveryPlan::Skip)
    } else if icmp {
        Ok(DiscoveryPlan::Icmp)
    } else {
        match ping_spec {
            Some(t) => match PortSpec::parse(t) {
                Ok(ps) => Ok(DiscoveryPlan::TcpPing(ps.ports)),
                Err(e) => Err(e),
            },
            None => Ok(DiscoveryPlan::TcpPing(default_ping_ports())),
        }
    }
}

/// A host's ports are scanned when it is up or discovery was skipped.
pub fn host_is_scanned(state: HostState, skip: bool) -> (b: bool)
    ensures
        b == (state == HostState::Up || skip),
{
    state == HostState::Up || skip
}

/// A SYN scan is made when asked for and the address is IPv4; otherwise a
/// connect scan.
pub fn syn_applies(want_syn: bool, ip: &IpAddr) -> (b: bool)
    ensures
        b == (want_syn && *ip is V4),
{
    want_syn && ip.is_ipv4()
}

/// Service detection runs (with `-sV`) on open ports only.
pub fn wants_service(detect: bool, state: PortState) -> (b: bool)
    ensures
        b == (detect && state == PortState::Open),
{
    detect && state == PortState::Open
}

/// What follows a SYN scan of a port that failed: a connect scan of it is
/// always made in its place; it is announced when the failure was missing
/// privilege.
pub fn syn_failure_notice(e: &Error) -> (announce: bool)
    ensures
        announce == (*e is Privilege),
{
    match e {
        Error::Privilege(_) => true,
        _ => false,
    }
}

} // verus!
