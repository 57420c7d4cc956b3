//! IP addresses as plain values, and their text forms.
use crate::text::{dec, push_dec, string_of};
use vstd::prelude::*;

verus! {

/// An IPv4 address: four octets, most significant first.
#[derive(Debug, Clone, Copy, PartialEq, Eq, Structural, Hash, PartialOrd, Ord)]
pub struct Ipv4Addr {
    pub a: u8,
    pub b: u8,
    pub c: u8,
    pub d: u8,
}

/// An IPv6 address: eight 16-bit segments, most significant first.
#[derive(Debug, Clone, Copy, PartialEq, Eq, Hash, PartialOrd, Ord)]
pub struct Ipv6Addr {
    pub segments: [u16; 8],
}

/// An IPv4 or IPv6 address.
#[derive(Debug, Clone, Copy, PartialEq, Eq, Hash, PartialOrd, Ord)]
pub enum IpAddr {
    V4(Ipv4Addr),
    V6(Ipv6Addr),
}

/// Dotted-decimal text of an IPv4 address, as `Display` writes it.
pub open spec fn ipv4_text(ip: Ipv4Addr) -> Seq<char> {
    dec(ip.a as nat) + seq!['.'] + dec(ip.b as nat) + seq!['.'] + dec(ip.c as nat) + seq!['.']
        + dec(ip.d as nat)
}

/// The text `core::net::Ipv6Addr`'s `Display` writes for these segments.
pub uninterp spec fn ipv6_text_of(segments: Seq<u16>) -> Seq<char>;

/// The text `Display` writes for an address.
pub open spec fn ip_text(ip: IpAddr) -> Seq<char> {
    match ip {
        IpAddr::V4(a) => ipv4_text(a),
        IpAddr::V6(a) => ipv6_text_of(a.segments@),
    }
}

impl Ipv4Addr {
    pub fn new(a: u8, b: u8, c: u8, d: u8) -> (ip: Ipv4Addr)
        ensures
            ip == (Ipv4Addr { a, b, c, d }),
    {
        Ipv4Addr { a, b, c, d }
    }

    /// The four octets, most significant first.
    pub fn octets(&self) -> (o: [u8; 4])
        ensures
            o@ == seq![self.a, self.b, self.c, self.d],
    {
        let o = [self.a, self.b, self.c, self.d];
        assert(o@ =~= seq![self.a, self.b, self.c, self.d]);
        o
    }

    /// The address as one 32-bit number.
    pub open spec fn to_nat(self) -> nat {
        ((self.a as nat * 256 + self.b as nat) * 256 + self.c as nat) * 256 + self.d as nat
    }

    /// Appends the dotted-decimal text.
    pub fn push_text(&self, out: &mut Vec<char>)
        ensures
            final(out)@ == old(out)@ + ipv4_text(*self),
    {
        push_dec(out, self.a as u64);
        out.push('.');
        push_dec(out, self.b as u64);
        out.push('.');
        push_dec(out, self.c as u64);
        out.push('.');
        push_dec(out, self.d as u64);
        assert(out@ =~= old(out)@ + ipv4_text(*self));
    }

    /// Dotted-decimal text, as `Display` writes it.
    pub fn to_string(&self) -> (s: String)
        ensures
            s@ == ipv4_text(*self),
    {
        let mut v: Vec<char> = Vec::new();
        self.push_text(&mut v);
        assert(v@ =~= ipv4_text(*self));
        string_of(&v)
    }
}

/// `Display` for an IPv6 address, through `core::net::Ipv6Addr`.
#[verifier::external_body]
fn ipv6_display(segments: [u16; 8]) -> (s: String)
    ensures
        s@ == ipv6_text_of(segments@),
{
    core::net::Ipv6Addr::from(segments).to_string()
}

impl Ipv6Addr {
    pub fn new(segments: [u16; 8]) -> (ip: Ipv6Addr)
        ensures
            ip.segments == segments,
    {
        Ipv6Addr { segments }
    }

    /// The text `Display` writes.
    pub fn to_string(&self) -> (s: String)
        ensures
            s@ == ipv6_text_of(self.segments@),
    {
        ipv6_display(self.segments)
    }
}

impl IpAddr {
    pub fn is_ipv4(&self) -> (b: bool)
        ensures
            b == (*self is V4),
    {
        match self {
            IpAddr::V4(_) => true,
            IpAddr::V6(_) => false,
        }
    }

    /// The text `Display` writes.
    pub fn to_string(&self) -> (s: String)
        ensures
            s@ == ip_text(*self),
    {
        match self {
            IpAddr::V4(a) => a.to_string(),
            IpAddr::V6(a) => a.to_string(),
        }
    }
}

} // verus!
