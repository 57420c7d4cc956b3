//! Target-spec parsing: hostname, IPv4/IPv6 literal, CIDR, simple ranges
//! (`10.0.0.1-50`), and lists thereof.
//!
//! Name resolution is network I/O and happens outside this crate: the caller
//! asks `lookup_name` which inputs need it, resolves those, and hands the
//! answers to `TargetSpec::parse_many`.
use crate::addr::{ip_text, ipv4_text, IpAddr, Ipv4Addr, Ipv6Addr};
use crate::error::Error;
use crate::text::{
    chars_of, count_char, count_of, dec, join_space, push_joined, strings_text, has_char, int_error_message, int_error_text,
    parse_uint, parse_uint_chars, push_all, push_dec, push_str, split_once, split_once_chars,
    string_of, trim, trimmed, };
use vstd::arithmetic::power2::pow2;
use vstd::prelude::*;

verus! {

#[derive(Debug, Clone)]
pub struct ResolvedHost {
    /// User-facing label: hostname if given, else IP.
    pub label: String,
    pub ip: IpAddr,
}

#[derive(Debug, Clone)]
pub struct TargetSpec {
    /// The input strings as given (one per CLI argument).
    pub inputs: Vec<String>,
    /// Resolved IP addresses, in order.
    pub addrs: Vec<ResolvedHost>,
}

/// A network in CIDR notation: an address and a prefix length.
#[derive(Debug, Clone, Copy, PartialEq, Eq)]
pub enum IpNetValue {
    V4(Ipv4Addr, u8),
    V6(Ipv6Addr, u8),
}

impl IpNetValue {
    /// The prefix length fits the address family.
    pub open spec fn wf(self) -> bool {
        match self {
            IpNetValue::V4(_, p) => p <= 32,
            IpNetValue::V6(_, p) => p <= 128,
        }
    }
}

/// The network `ipnet::IpNet::from_str` reads from `s`, if any.
pub uninterp spec fn ip_net_parse_of(s: Seq<char>) -> Option<IpNetValue>;

/// The address `core::net::IpAddr::from_str` reads from `s`, if any.
pub uninterp spec fn ip_parse_of(s: Seq<char>) -> Option<IpAddr>;

/// The address `core::net::Ipv4Addr::from_str` reads from `s`, if any.
pub uninterp spec fn ipv4_parse_of(s: Seq<char>) -> Option<Ipv4Addr>;

/// `ipnet::IpNet::from_str`; on failure the error's message.
#[verifier::external_body]
fn ip_net_from_str(s: &str) -> (r: Result<IpNetValue, String>)
    ensures
        match r {
            Ok(n) => ip_net_parse_of(s@) == Some(n) && n.wf(),
            Err(m) => ip_net_parse_of(s@) is None && m@ == "invalid IP address syntax"@,
        },
{
    match s.parse::<ipnet::IpNet>() {
        Ok(ipnet::IpNet::V4(n)) => {
            let o = n.addr().octets();
            Ok(IpNetValue::V4(Ipv4Addr { a: o[0], b: o[1], c: o[2], d: o[3] }, n.prefix_len()))
        },
        Ok(ipnet::IpNet::V6(n)) => Ok(
            IpNetValue::V6(Ipv6Addr { segments: n.addr().segments() }, n.prefix_len()),
        ),
        Err(e) => Err(e.to_string()),
    }
}

/// `core::net::IpAddr::from_str`.
#[verifier::external_body]
fn parse_ip_text(s: &str) -> (r: Option<IpAddr>)
    ensures
        r == ip_parse_of(s@),
{
    match s.parse::<core::net::IpAddr>() {
        Ok(core::net::IpAddr::V4(a)) => {
            let o = a.octets();
            Some(IpAddr::V4(Ipv4Addr { a: o[0], b: o[1], c: o[2], d: o[3] }))
        },
        Ok(core::net::IpAddr::V6(a)) => Some(IpAddr::V6(Ipv6Addr { segments: a.segments() })),
        Err(_) => None,
    }
}

/// `core::net::Ipv4Addr::from_str`.
#[verifier::external_body]
fn parse_ipv4_text(s: &str) -> (r: Option<Ipv4Addr>)
    ensures
        r == ipv4_parse_of(s@),
{
    match s.parse::<core::net::Ipv4Addr>() {
        Ok(a) => {
            let o = a.octets();
            Some(Ipv4Addr { a: o[0], b: o[1], c: o[2], d: o[3] })
        },
        Err(_) => None,
    }
}

/// The IPv4 address of a 32-bit number.
pub open spec fn ipv4_of_nat(n: nat) -> Ipv4Addr {
    Ipv4Addr {
        a: (n / 16777216 % 256) as u8,
        b: (n / 65536 % 256) as u8,
        c: (n / 256 % 256) as u8,
        d: (n % 256) as u8,
    }
}

/// The IPv6 address of a 128-bit number.
pub open spec fn ipv6_nat(a: Ipv6Addr) -> nat {
    seg_nat(a.segments@, 8)
}

pub open spec fn seg_nat(s: Seq<u16>, k: nat) -> nat
    decreases k,
{
    if k == 0 {
        0
    } else {
        seg_nat(s, (k - 1) as nat) * 65536 + s[k - 1] as nat
    }
}

/// The IPv6 address whose 128-bit number is `n`.
pub open spec fn ipv6_of_nat(n: nat) -> Ipv6Addr {
    Ipv6Addr {
        segments: [
            (n / pow2(112) % 65536) as u16,
            (n / pow2(96) % 65536) as u16,
            (n / pow2(80) % 65536) as u16,
            (n / pow2(64) % 65536) as u16,
            (n / pow2(48) % 65536) as u16,
            (n / pow2(32) % 65536) as u16,
            (n / pow2(16) % 65536) as u16,
            (n % 65536) as u16,
        ],
    }
}

/// The first and last address of the network `n` spans, as numbers, with
/// the size of the address space in bits.
pub open spec fn net_bounds(addr_nat: nat, prefix: nat, bits: nat) -> (nat, nat) {
    let size = pow2((bits - prefix) as nat);
    let network = addr_nat / size * size;
    (network, (network + size - 1) as nat)
}

/// `ipnet::Ipv4Net::hosts`: the addresses of the network; for prefixes
/// shorter than 31 the network and broadcast addresses are left out.
pub open spec fn ipv4_hosts_spec(addr: Ipv4Addr, prefix: u8) -> Seq<Ipv4Addr> {
    let (network, broadcast) = net_bounds(addr.to_nat(), prefix as nat, 32);
    let (lo, hi) = if prefix < 31 {
        (network + 1, broadcast - 1)
    } else {
        (network, broadcast as int)
    };
    Seq::new((hi - lo + 1) as nat, |i: int| ipv4_of_nat((lo + i) as nat))
}

/// `ipnet::Ipv4Net::new(addr, prefix).hosts()`, collected.
#[verifier::external_body]
fn ipv4_net_hosts(addr: Ipv4Addr, prefix: u8) -> (r: Vec<Ipv4Addr>)
    requires
        prefix <= 32,
    ensures
        r@ == ipv4_hosts_spec(addr, prefix),
{
    let a = core::net::Ipv4Addr::new(addr.a, addr.b, addr.c, addr.d);
    let net = ipnet::Ipv4Net::new(a, prefix).unwrap();
    net.hosts().map(|h| {
        let o = h.octets();
        Ipv4Addr { a: o[0], b: o[1], c: o[2], d: o[3] }
    }).collect()
}

/// `ipnet::Ipv6Net::hosts`: every address of the network, first to last.
pub open spec fn ipv6_hosts_spec(addr: Ipv6Addr, prefix: u8) -> Seq<Ipv6Addr> {
    let (network, broadcast) = net_bounds(ipv6_nat(addr), prefix as nat, 128);
    Seq::new((broadcast - network + 1) as nat, |i: int| ipv6_of_nat((network + i) as nat))
}

/// `ipnet::Ipv6Net::new(addr, prefix).hosts()`, collected.
#[verifier::external_body]
fn ipv6_net_hosts(addr: Ipv6Addr, prefix: u8) -> (r: Vec<Ipv6Addr>)
    requires
        prefix <= 128,
    ensures
        r@ == ipv6_hosts_spec(addr, prefix),
{
    let a = core::net::Ipv6Addr::from(addr.segments);
    let net = ipnet::Ipv6Net::new(a, prefix).unwrap();
    net.hosts().map(|h| Ipv6Addr { segments: h.segments() }).collect()
}

/// A resolved host by its label text and address.
pub type HostText = (Seq<char>, IpAddr);

pub open spec fn host_text(h: ResolvedHost) -> HostText {
    (h.label@, h.ip)
}

pub open spec fn hosts_text(v: Seq<ResolvedHost>) -> Seq<HostText> {
    v.map_values(|h: ResolvedHost| host_text(h))
}

/// The hosts of a range `a.b.c.lo-hi`, labelled by their text.
pub open spec fn range_hosts(lo_ip: Ipv4Addr, hi: nat) -> Seq<HostText> {
    Seq::new(
        (hi - lo_ip.d + 1) as nat,
        |i: int|
            {
                let ip = Ipv4Addr { a: lo_ip.a, b: lo_ip.b, c: lo_ip.c, d: (lo_ip.d + i) as u8 };
                (ipv4_text(ip), IpAddr::V4(ip))
            },
    )
}

/// `10.0.0.5-25` style IPv4 ranges: `Ok(None)` for strings of another shape,
/// `Err(reason)` for malformed ones.
pub open spec fn v4_range_spec(s: Seq<char>) -> Result<Option<Seq<HostText>>, Seq<char>> {
    if count_char(s, '-') != 1 {
        Ok(None)
    } else {
        match split_once(s, '-') {
            None => Ok(None),
            Some((left, hi_s)) => if count_char(left, '.') != 3 {
                Ok(None)
            } else {
                match ipv4_parse_of(left) {
                    None => Ok(None),
                    Some(lo_ip) => match parse_uint(trim(hi_s), 255) {
                        Err(e) => Err("range high `"@ + hi_s + "`: "@ + int_error_text(e)),
                        Ok(hi) => if hi < lo_ip.d {
                            Err("range high "@ + dec(hi) + " < low "@ + dec(lo_ip.d as nat))
                        } else {
                            Ok(Some(range_hosts(lo_ip, hi)))
                        },
                    },
                }
            },
        }
    }
}

/// What one input stands for before name resolution.
pub enum ExpansionSpec {
    Hosts(Seq<HostText>),
    Lookup(Seq<char>),
}

/// The hosts of a network, labelled by their text.
pub open spec fn net_hosts_text(n: IpNetValue, v4: Seq<Ipv4Addr>, v6: Seq<Ipv6Addr>) -> Seq<
    HostText,
> {
    match n {
        IpNetValue::V4(_, _) => v4.map_values(|a: Ipv4Addr| (ipv4_text(a), IpAddr::V4(a))),
        IpNetValue::V6(_, _) => v6.map_values(
            |a: Ipv6Addr| (ip_text(IpAddr::V6(a)), IpAddr::V6(a)),
        ),
    }
}

/// The hosts of a CIDR network, labelled by their text.
pub open spec fn cidr_hosts_text(n: IpNetValue) -> Seq<HostText> {
    match n {
        IpNetValue::V4(a, p) => net_hosts_text(n, ipv4_hosts_spec(a, p), Seq::empty()),
        IpNetValue::V6(a, p) => net_hosts_text(n, Seq::empty(), ipv6_hosts_spec(a, p)),
    }
}

/// One input (trimmed): empty stands for nothing; CIDR for the hosts of the
/// network; a last-octet range for its addresses; an IP literal for itself;
/// anything else is a hostname to resolve, refused when resolution is off.
/// An error is the reason the input is refused.
pub open spec fn expand_spec(raw: Seq<char>, resolve_dns: bool) -> Result<ExpansionSpec, Seq<char>> {
    let s = trim(raw);
    if s.len() == 0 {
        Ok(ExpansionSpec::Hosts(Seq::empty()))
    } else if has_char(s, '/') {
        match ip_net_parse_of(s) {
            None => Err("bad CIDR: "@ + "invalid IP address syntax"@),
            Some(n) => Ok(ExpansionSpec::Hosts(cidr_hosts_text(n))),
        }
    } else {
        match v4_range_spec(s) {
            Err(m) => Err(m),
            Ok(Some(h)) => Ok(ExpansionSpec::Hosts(h)),
            Ok(None) => match ip_parse_of(s) {
                Some(ip) => Ok(ExpansionSpec::Hosts(seq![(s, ip)])),
                None => if !resolve_dns {
                    Err("looks like a hostname but DNS resolution is disabled (-n)"@)
                } else {
                    Ok(ExpansionSpec::Lookup(s))
                },
            },
        }
    }
}

/// What one input stands for before name resolution.
#[derive(Debug, Clone)]
pub enum Expansion {
    /// These hosts.
    Hosts(Vec<ResolvedHost>),
    /// The hostname to resolve.
    Lookup(String),
}

pub open spec fn expansion_text(e: Expansion) -> ExpansionSpec {
    match e {
        Expansion::Hosts(v) => ExpansionSpec::Hosts(hosts_text(v@)),
        Expansion::Lookup(n) => ExpansionSpec::Lookup(n@),
    }
}

/// The error of a refused input: `Error::Target` with the trimmed input.
pub open spec fn is_target_error(e: Error, given: Seq<char>, why: Seq<char>) -> bool {
    e matches Error::Target(g, w) && g@ == given && w@ == why
}

fn target_error(s: &Vec<char>, why: &Vec<char>) -> (e: Error)
    ensures
        is_target_error(e, s@, why@),
{
    Error::Target(string_of(s), string_of(why))
}

/// Hosts `a.b.c.lo ..= a.b.c.hi`.
fn range_host_vec(lo_ip: Ipv4Addr, hi: u8) -> (v: Vec<ResolvedHost>)
    requires
        lo_ip.d <= hi,
    ensures
        hosts_text(v@) == range_hosts(lo_ip, hi as nat),
{
    let mut v: Vec<ResolvedHost> = Vec::new();
    let mut last: u32 = lo_ip.d as u32;
    while last <= hi as u32
        invariant
            lo_ip.d <= last <= hi as u32 + 1,
            hi <= 255,
            hosts_text(v@) == range_hosts(lo_ip, hi as nat).take(last - lo_ip.d),
        decreases hi as u32 + 1 - last,
    {
        let ip = Ipv4Addr::new(lo_ip.a, lo_ip.b, lo_ip.c, last as u8);
        let label = ip.to_string();
        let ghost before = v@;
        v.push(ResolvedHost { label, ip: IpAddr::V4(ip) });
        assert(hosts_text(v@) =~= hosts_text(before).push((ipv4_text(ip), IpAddr::V4(ip))));
        last = last + 1;
        assert(hosts_text(v@) =~= range_hosts(lo_ip, hi as nat).take(last - lo_ip.d));
    }
    assert(range_hosts(lo_ip, hi as nat).take(hi as nat + 1 - lo_ip.d) =~= range_hosts(
        lo_ip,
        hi as nat,
    ));
    v
}

/// Parses `10.0.0.5-25` style IPv4 ranges. Returns `None` for strings of
/// another shape, `Err` for malformed ones.
pub fn parse_v4_range(s: &Vec<char>) -> (r: Result<Option<Vec<ResolvedHost>>, Error>)
    ensures
        match v4_range_spec(s@) {
            Ok(None) => r matches Ok(None),
            Ok(Some(h)) => r matches Ok(Some(v)) && hosts_text(v@) == h,
            Err(m) => r matches Err(e) && is_target_error(e, s@, m),
        },
{
    // Must have exactly one '-' and three dots.
    if count_of(s, '-') != 1 {
        return Ok(None);
    }
    let (left, hi_s) = match split_once_chars(s, '-') {
        Some(p) => p,
        None => return Ok(None),
    };
    if count_of(&left, '.') != 3 {
        return Ok(None);
    }
    let left_s = string_of(&left);
    let lo_ip = match parse_ipv4_text(left_s.as_str()) {
        Some(ip) => ip,
        None => return Ok(None),
    };
    let hi_t = trimmed(&hi_s);
    let hi = match parse_uint_chars(&hi_t, 255) {
        Ok(v) => v,
        Err(e) => {
            let mut m = chars_of("range high `");
            push_all(&mut m, &hi_s);
            push_str(&mut m, "`: ");
            let em = int_error_message(e);
            push_all(&mut m, &em);
            return Err(target_error(s, &m));
        },
    };
    proof {
        crate::text::lemma_parse_uint_bound(hi_t@, 255);
    }
    if hi < lo_ip.d as u32 {
        let mut m = chars_of("range high ");
        push_dec(&mut m, hi as u64);
        push_str(&mut m, " < low ");
        push_dec(&mut m, lo_ip.d as u64);
        return Err(target_error(s, &m));
    }
    Ok(Some(range_host_vec(lo_ip, hi as u8)))
}

proof fn lemma_ipv4_hosts_nonempty(a: Ipv4Addr, p: u8)
    requires
        p <= 32,
    ensures
        ipv4_hosts_spec(a, p).len() > 0,
{
    let e = (32 - p) as nat;
    vstd::arithmetic::power2::lemma_pow2_pos(e);
    if p < 31 {
        vstd::arithmetic::power2::lemma_pow2_strictly_increases(1, e);
        vstd::arithmetic::power2::lemma2_to64();
    }
}

/// The hosts of a CIDR network, labelled by their text.
fn cidr_hosts(n: IpNetValue) -> (v: Vec<ResolvedHost>)
    requires
        n.wf(),
    ensures
        hosts_text(v@) == cidr_hosts_text(n),
        v@.len() > 0,
{
    let mut v: Vec<ResolvedHost> = Vec::new();
    match n {
        IpNetValue::V4(a, p) => {
            let hosts = ipv4_net_hosts(a, p);
            proof {
                lemma_ipv4_hosts_nonempty(a, p);
            }
            let mut i: usize = 0;
            while i < hosts.len()
                invariant
                    i <= hosts.len(),
                    hosts_text(v@) == net_hosts_text(n, hosts@, Seq::empty()).take(i as int),
                    v@.len() == i,
                    n == IpNetValue::V4(a, p),
                decreases hosts.len() - i,
            {
                let ip = hosts[i];
                let ghost before = v@;
                v.push(ResolvedHost { label: ip.to_string(), ip: IpAddr::V4(ip) });
                assert(hosts_text(v@) =~= hosts_text(before).push((ipv4_text(ip), IpAddr::V4(ip))));
                i = i + 1;
                assert(hosts_text(v@) =~= net_hosts_text(n, hosts@, Seq::empty()).take(i as int));
            }
            assert(net_hosts_text(n, hosts@, Seq::empty()).take(i as int) =~= net_hosts_text(
                n,
                hosts@,
                Seq::empty(),
            ));
        },
        IpNetValue::V6(a, p) => {
            let hosts = ipv6_net_hosts(a, p);
            proof {
                let (network, broadcast) = net_bounds(ipv6_nat(a), p as nat, 128);
                vstd::arithmetic::power2::lemma_pow2_pos((128 - p) as nat);
                assert(broadcast >= network) by (nonlinear_arith)
                    requires
                        broadcast == network + pow2((128 - p) as nat) - 1,
                        pow2((128 - p) as nat) > 0,
                ;
            }
            let mut i: usize = 0;
            while i < hosts.len()
                invariant
                    i <= hosts.len(),
                    hosts_text(v@) == net_hosts_text(n, Seq::empty(), hosts@).take(i as int),
                    v@.len() == i,
                    n == IpNetValue::V6(a, p),
                decreases hosts.len() - i,
            {
                let ip = hosts[i];
                let ghost before = v@;
                let addr = IpAddr::V6(ip);
                v.push(ResolvedHost { label: addr.to_string(), ip: addr });
                assert(hosts_text(v@) =~= hosts_text(before).push((ip_text(addr), addr)));
                i = i + 1;
                assert(hosts_text(v@) =~= net_hosts_text(n, Seq::empty(), hosts@).take(i as int));
            }
            assert(net_hosts_text(n, Seq::empty(), hosts@).take(i as int) =~= net_hosts_text(
                n,
                Seq::empty(),
                hosts@,
            ));
        },
    }
    v
}

/// Expands one input into its hosts, or names the hostname that needs
/// resolving.
pub fn expand_one(raw: &str, resolve_dns: bool) -> (r: Result<Expansion, Error>)
    ensures
        match expand_spec(raw@, resolve_dns) {
            Ok(x) => r matches Ok(y) && expansion_text(y) == x,
            Err(m) => r matches Err(e) && is_target_error(e, trim(raw@), m),
        },
{
    let all = chars_of(raw);
    let s = trimmed(&all);
    if s.len() == 0 {
        let v: Vec<ResolvedHost> = Vec::new();
        assert(hosts_text(v@) =~= Seq::<HostText>::empty());
        return Ok(Expansion::Hosts(v));
    }
    let s_str = string_of(&s);
    // CIDR (v4 or v6)
    if crate::text::find_char(&s, '/').is_some() {
        match ip_net_from_str(s_str.as_str()) {
            Ok(n) => {
                let v = cidr_hosts(n);
                let x = Expansion::Hosts(v);
                assert(expansion_text(x) == ExpansionSpec::Hosts(hosts_text(v@)));
                return Ok(x);
            },
            Err(e) => {
                let mut m = chars_of("bad CIDR: ");
                push_all(&mut m, &chars_of(e.as_str()));
                return Err(target_error(&s, &m));
            },
        }
    }
    // IPv4 simple last-octet range: 10.0.0.5-25
    match parse_v4_range(&s) {
        Err(e) => return Err(e),
        Ok(Some(v)) => return Ok(Expansion::Hosts(v)),
        Ok(None) => {},
    }
    // bare IP literal
    if let Some(ip) = parse_ip_text(s_str.as_str()) {
        let mut v: Vec<ResolvedHost> = Vec::new();
        v.push(ResolvedHost { label: s_str, ip });
        assert(hosts_text(v@) =~= seq![(s@, ip)]);
        return Ok(Expansion::Hosts(v));
    }
    // hostname
    if !resolve_dns {
        return Err(
            target_error(&s, &chars_of("looks like a hostname but DNS resolution is disabled (-n)")),
        );
    }
    Ok(Expansion::Lookup(s_str))
}

/// What name resolution answered: the addresses, or the error's message.
pub type DnsAnswer = Result<Vec<IpAddr>, String>;

pub open spec fn answer_text(a: DnsAnswer) -> Result<Seq<IpAddr>, Seq<char>> {
    match a {
        Ok(v) => Ok(v@),
        Err(m) => Err(m@),
    }
}

/// Index of the first IPv4 address.
pub open spec fn first_v4(ips: Seq<IpAddr>) -> Option<nat>
    decreases ips.len(),
{
    if ips.len() == 0 {
        None
    } else if ips[0] is V4 {
        Some(0)
    } else {
        match first_v4(ips.drop_first()) {
            Some(i) => Some(i + 1),
            None => None,
        }
    }
}

/// The address a hostname stands for: the first IPv4 one if any, else the
/// first one.
pub open spec fn chosen_address(ips: Seq<IpAddr>) -> IpAddr {
    match first_v4(ips) {
        Some(i) => ips[i as int],
        None => ips[0],
    }
}

/// The hosts of a resolved hostname, or the reason resolution failed.
pub open spec fn resolve_spec(name: Seq<char>, answer: Result<Seq<IpAddr>, Seq<char>>) -> Result<
    Seq<HostText>,
    Seq<char>,
> {
    match answer {
        Err(m) => Err(m),
        Ok(ips) => if ips.len() == 0 {
            Err("no addresses"@)
        } else {
            Ok(seq![(name, chosen_address(ips))])
        },
    }
}

proof fn lemma_first_v4_at(ips: Seq<IpAddr>, i: int)
    requires
        0 <= i <= ips.len(),
        forall|j: int| 0 <= j < i ==> !(ips[j] is V4),
    ensures
        i < ips.len() && ips[i] is V4 ==> first_v4(ips) == Some(i as nat),
        i == ips.len() ==> first_v4(ips) is None,
    decreases i,
{
    if i > 0 {
        lemma_first_v4_at(ips.drop_first(), i - 1);
    }
}

fn first_v4_index(ips: &Vec<IpAddr>) -> (r: Option<usize>)
    ensures
        r matches Some(i) ==> i < ips.len() && first_v4(ips@) == Some(i as nat),
        r is None ==> first_v4(ips@) is None,
{
    let mut i: usize = 0;
    while i < ips.len()
        invariant
            i <= ips.len(),
            forall|j: int| 0 <= j < i ==> !(ips@[j] is V4),
        decreases ips.len() - i,
    {
        if ips[i].is_ipv4() {
            proof {
                lemma_first_v4_at(ips@, i as int);
            }
            return Some(i);
        }
        i = i + 1;
    }
    proof {
        lemma_first_v4_at(ips@, i as int);
    }
    None
}

/// A copy of a resolved host.
fn copy_host(h: &ResolvedHost) -> (c: ResolvedHost)
    ensures
        host_text(c) == host_text(*h),
{
    ResolvedHost { label: h.label.clone(), ip: h.ip }
}

/// The error of a failed resolution: `Error::Dns` with the name.
pub open spec fn is_dns_error(e: Error, name: Seq<char>, why: Seq<char>) -> bool {
    e matches Error::Dns(g, w) && g@ == name && w@ == why
}

proof fn lemma_first_v4_facts(ips: Seq<IpAddr>)
    ensures
        first_v4(ips) matches Some(i) ==> i < ips.len() && ips[i as int] is V4 && forall|k: int|
            0 <= k < i ==> !(ips[k] is V4),
        first_v4(ips) is None ==> forall|k: int| 0 <= k < ips.len() ==> !(ips[k] is V4),
    decreases ips.len(),
{
    if ips.len() > 0 {
        lemma_first_v4_facts(ips.drop_first());
        assert forall|k: int| 1 <= k < ips.len() implies ips[k] == ips.drop_first()[k - 1] by {}
    }
}

/// A hostname whose answer holds an IPv4 address stands for the first IPv4
/// address of the answer (IPv4 is preferred when the answer is mixed); an
/// answer of IPv6 addresses only gives its first address.
pub proof fn law_hostname_prefers_first_ipv4(ips: Seq<IpAddr>)
    requires
        ips.len() > 0,
    ensures
        (exists|j: int| 0 <= j < ips.len() && ips[j] is V4) ==> (exists|j: int|
            0 <= j < ips.len() && ips[j] is V4 && chosen_address(ips) == ips[j] && forall|k: int|
                0 <= k < j ==> !(ips[k] is V4)),
        (forall|j: int| 0 <= j < ips.len() ==> !(ips[j] is V4)) ==> chosen_address(ips) == ips[0],
{
    lemma_first_v4_facts(ips);
    if let Some(i) = first_v4(ips) {
        assert(ips[i as int] is V4);
    }
}

/// The hosts a hostname resolves to, given what resolution answered.
pub fn resolve_lookup(name: &str, answer: &DnsAnswer) -> (r: Result<Vec<ResolvedHost>, Error>)
    ensures
        match resolve_spec(name@, answer_text(*answer)) {
            Ok(h) => r matches Ok(v) && hosts_text(v@) == h,
            Err(m) => r matches Err(e) && is_dns_error(e, name@, m),
        },
        match *answer {
            Ok(ips) => ips@.len() > 0 ==> (r matches Ok(v) && v@.len() == 1 && v@[0].label@
                == name@ && ((exists|j: int| 0 <= j < ips@.len() && ips@[j] is V4) ==> (exists|
                j: int|
                0 <= j < ips@.len() && ips@[j] is V4 && v@[0].ip == ips@[j] && forall|k: int|
                    0 <= k < j ==> !(ips@[k] is V4))) && ((forall|j: int|
                0 <= j < ips@.len() ==> !(ips@[j] is V4)) ==> v@[0].ip == ips@[0])),
            Err(_) => true,
        },
{
    proof {
        if let Ok(ips) = answer {
            if ips@.len() > 0 {
                law_hostname_prefers_first_ipv4(ips@);
            }
        }
    }
    let n = string_of(&chars_of(name));
    match answer {
        Err(m) => Err(Error::Dns(n, m.clone())),
        Ok(ips) => {
            if ips.len() == 0 {
                return Err(Error::Dns(n, string_of(&chars_of("no addresses"))));
            }
            // Take the first address (prefer v4 if mixed).
            let chosen = match first_v4_index(ips) {
                Some(i) => ips[i],
                None => ips[0],
            };
            let mut v: Vec<ResolvedHost> = Vec::new();
            v.push(ResolvedHost { label: n, ip: chosen });
            assert(hosts_text(v@) =~= seq![(name@, chosen_address(ips@))]);
            Ok(v)
        },
    }
}

/// The hostname `expand_one` leaves to resolve for this input, if any.
pub open spec fn lookup_spec(raw: Seq<char>, resolve_dns: bool) -> Option<Seq<char>> {
    match expand_spec(raw, resolve_dns) {
        Ok(ExpansionSpec::Lookup(n)) => Some(n),
        _ => None,
    }
}

/// The hostname this input needs resolved before `parse_many`, if any.
pub fn lookup_name(raw: &str, resolve_dns: bool) -> (r: Option<String>)
    ensures
        opt_str_text(r) == lookup_spec(raw@, resolve_dns),
{
    match expand_one(raw, resolve_dns) {
        Ok(Expansion::Lookup(n)) => Some(n),
        _ => None,
    }
}

pub open spec fn opt_str_text(o: Option<String>) -> Option<Seq<char>> {
    match o {
        Some(s) => Some(s@),
        None => None,
    }
}

/// Why a list of inputs is refused.
pub enum TargetErrSpec {
    Target(Seq<char>, Seq<char>),
    Dns(Seq<char>, Seq<char>),
}

pub open spec fn error_is(e: Error, t: TargetErrSpec) -> bool {
    match t {
        TargetErrSpec::Target(g, w) => is_target_error(e, g, w),
        TargetErrSpec::Dns(g, w) => is_dns_error(e, g, w),
    }
}

pub open spec fn opt_answer_text(a: Option<DnsAnswer>) -> Option<Result<Seq<IpAddr>, Seq<char>>> {
    match a {
        Some(x) => Some(answer_text(x)),
        None => None,
    }
}

/// The hosts of one input, given the answer for its hostname if it has one.
pub open spec fn input_spec(
    raw: Seq<char>,
    resolve_dns: bool,
    answer: Option<Result<Seq<IpAddr>, Seq<char>>>,
) -> Result<Seq<HostText>, TargetErrSpec> {
    match expand_spec(raw, resolve_dns) {
        Err(m) => Err(TargetErrSpec::Target(trim(raw), m)),
        Ok(ExpansionSpec::Hosts(h)) => Ok(h),
        Ok(ExpansionSpec::Lookup(n)) => match answer {
            Some(a) => match resolve_spec(n, a) {
                Ok(h) => Ok(h),
                Err(m) => Err(TargetErrSpec::Dns(n, m)),
            },
            None => Err(TargetErrSpec::Dns(n, Seq::empty())),
        },
    }
}

/// The hosts of all inputs, in order; the first refused input decides the
/// error.
pub open spec fn many_spec(
    inputs: Seq<Seq<char>>,
    resolve_dns: bool,
    answers: Seq<Option<Result<Seq<IpAddr>, Seq<char>>>>,
) -> Result<Seq<HostText>, TargetErrSpec>
    decreases inputs.len(),
{
    if inputs.len() == 0 {
        Ok(Seq::empty())
    } else {
        match input_spec(inputs[0], resolve_dns, answers[0]) {
            Err(e) => Err(e),
            Ok(h) => match many_spec(inputs.drop_first(), resolve_dns, answers.drop_first()) {
                Err(e) => Err(e),
                Ok(t) => Ok(h + t),
            },
        }
    }
}

/// Every target of a list of inputs, or why the list is refused: a refused
/// input, a failed resolution, or no target at all.
pub open spec fn parse_many_spec(
    inputs: Seq<Seq<char>>,
    resolve_dns: bool,
    answers: Seq<Option<Result<Seq<IpAddr>, Seq<char>>>>,
) -> Result<Seq<HostText>, TargetErrSpec> {
    match many_spec(inputs, resolve_dns, answers) {
        Err(e) => Err(e),
        Ok(h) => if h.len() == 0 {
            Err(TargetErrSpec::Target(join_space(inputs), "no targets resolved"@))
        } else {
            Ok(h)
        },
    }
}


pub open spec fn answers_text(answers: Seq<Option<DnsAnswer>>) -> Seq<
    Option<Result<Seq<IpAddr>, Seq<char>>>,
> {
    answers.map_values(|a: Option<DnsAnswer>| opt_answer_text(a))
}

/// Every input that needs resolving has an answer.
pub open spec fn answers_cover(inputs: Seq<String>, resolve_dns: bool, answers: Seq<Option<DnsAnswer>>) -> bool {
    &&& answers.len() == inputs.len()
    &&& forall|i: int| 0 <= i < inputs.len() && #[trigger] lookup_spec(inputs[i]@, resolve_dns) is Some ==> answers[i] is Some
}

fn copy_strings(v: &[String]) -> (r: Vec<String>)
    ensures
        r@ == v@,
{
    let mut r: Vec<String> = Vec::new();
    let mut i: usize = 0;
    while i < v.len()
        invariant
            i <= v.len(),
            r@ == v@.take(i as int),
        decreases v.len() - i,
    {
        r.push(v[i].clone());
        i = i + 1;
        assert(r@ =~= v@.take(i as int));
    }
    assert(v@.take(v.len() as int) =~= v@);
    r
}

impl TargetSpec {
    /// Parses every input; a hostname's addresses come from `answers`, the
    /// answer given for its position.
    pub fn parse_many(inputs: &[String], resolve_dns: bool, answers: &[Option<DnsAnswer>]) -> (r:
        Result<TargetSpec, Error>)
        requires
            answers_cover(inputs@, resolve_dns, answers@),
        ensures
            match parse_many_spec(strings_text(inputs@), resolve_dns, answers_text(answers@)) {
                Ok(h) => r matches Ok(t) && hosts_text(t.addrs@) == h && t.inputs@ == inputs@,
                Err(e) => r matches Err(err) && error_is(err, e),
            },
    {
        let ghost ins = strings_text(inputs@);
        let ghost ans = answers_text(answers@);
        let mut all: Vec<ResolvedHost> = Vec::new();
        let mut k: usize = 0;
        assert(ins.skip(0) =~= ins);
        assert(ans.skip(0) =~= ans);
        proof {
            match many_spec(ins, resolve_dns, ans) {
                Ok(t) => {
                    assert(hosts_text(all@) + t =~= t);
                },
                Err(e) => {},
            }
        }
        while k < inputs.len()
            invariant
                k <= inputs.len(),
                answers_cover(inputs@, resolve_dns, answers@),
                ins == strings_text(inputs@),
                ans == answers_text(answers@),
                match many_spec(ins.skip(k as int), resolve_dns, ans.skip(k as int)) {
                    Ok(t) => many_spec(ins, resolve_dns, ans) == Ok::<Seq<HostText>, TargetErrSpec>(
                        hosts_text(all@) + t,
                    ),
                    Err(e) => many_spec(ins, resolve_dns, ans) == Err::<Seq<HostText>, TargetErrSpec>(e),
                },
            decreases inputs.len() - k,
        {
            assert(ins.skip(k as int).drop_first() =~= ins.skip(k + 1));
            assert(ans.skip(k as int).drop_first() =~= ans.skip(k + 1));
            assert(ins.skip(k as int)[0] == inputs@[k as int]@);
            assert(ans.skip(k as int)[0] == opt_answer_text(answers@[k as int]));
            let ghost before = hosts_text(all@);
            let here: Vec<ResolvedHost> = match expand_one(inputs[k].as_str(), resolve_dns) {
                Err(e) => {
                    return Err(e);
                },
                Ok(Expansion::Hosts(v)) => v,
                Ok(Expansion::Lookup(n)) => {
                    assert(lookup_spec(inputs@[k as int]@, resolve_dns) is Some);
                    match &answers[k] {
                        Some(a) => match resolve_lookup(n.as_str(), a) {
                            Ok(v) => v,
                            Err(e) => {
                                return Err(e);
                            },
                        },
                        None => {
                            assert(false);
                            Vec::new()
                        },
                    }
                },
            };
            let ghost h = hosts_text(here@);
            let mut j: usize = 0;
            while j < here.len()
                invariant
                    j <= here.len(),
                    hosts_text(all@) == before + hosts_text(here@).take(j as int),
                decreases here.len() - j,
            {
                let ghost b2 = all@;
                all.push(copy_host(&here[j]));
                assert(hosts_text(all@) =~= hosts_text(b2).push(host_text(here@[j as int])));
                j = j + 1;
                assert(hosts_text(all@) =~= before + hosts_text(here@).take(j as int));
            }
            assert(hosts_text(here@).take(here.len() as int) =~= hosts_text(here@));
            proof {
                match many_spec(ins.skip(k + 1), resolve_dns, ans.skip(k + 1)) {
                    Ok(t) => {
                        assert(before + (h + t) =~= (before + h) + t);
                    },
                    Err(e) => {},
                }
            }
            k = k + 1;
        }
        assert(ins.skip(k as int) =~= Seq::<Seq<char>>::empty());
        assert(hosts_text(all@) + Seq::<HostText>::empty() =~= hosts_text(all@));
        if all.len() == 0 {
            let mut j: Vec<char> = Vec::new();
            push_joined(&mut j, inputs);
            assert(j@ =~= join_space(strings_text(inputs@)));
            return Err(Error::Target(string_of(&j), string_of(&chars_of("no targets resolved"))));
        }
        Ok(TargetSpec { inputs: copy_strings(inputs), addrs: all })
    }

    /// `parse_many` when every hostname that needs resolving has an answer;
    /// `None` when one lacks it (or `answers` is not as long as `inputs`).
    pub fn parse_many_checked(inputs: &[String], resolve_dns: bool, answers: &[Option<DnsAnswer>])
        -> (r: Option<Result<TargetSpec, Error>>)
        ensures
            r is Some <==> answers_cover(inputs@, resolve_dns, answers@),
            r matches Some(res) ==> match parse_many_spec(
                strings_text(inputs@),
                resolve_dns,
                answers_text(answers@),
            ) {
                Ok(h) => res matches Ok(t) && hosts_text(t.addrs@) == h && t.inputs@ == inputs@,
                Err(e) => res matches Err(err) && error_is(err, e),
            },
    {
        if answers.len() != inputs.len() {
            return None;
        }
        let mut i: usize = 0;
        while i < inputs.len()
            invariant
                i <= inputs.len(),
                answers@.len() == inputs@.len(),
                forall|j: int|
                    0 <= j < i && #[trigger] lookup_spec(inputs@[j]@, resolve_dns) is Some
                        ==> answers@[j] is Some,
            decreases inputs.len() - i,
        {
            let need = lookup_name(inputs[i].as_str(), resolve_dns);
            if need.is_some() && answers[i].is_none() {
                return None;
            }
            i = i + 1;
        }
        Some(TargetSpec::parse_many(inputs, resolve_dns, answers))
    }
}

} // verus!
