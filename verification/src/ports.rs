//! Port-spec parsing: `22`, `1-1024`, `22,80,443`, `1-1024,3306,8000-8100`, `-` (all).
use crate::error::Error;
use crate::text::{
    chars_of, dec, int_error_message, int_error_text, lemma_parse_uint_bound, parse_uint,
    parse_uint_chars, push_all, push_dec, push_str, split_chars, split_on, split_once,
    split_once_chars, string_of, trim, trimmed, IntError,
};
use std::collections::BTreeSet;
use vstd::prelude::*;

verus! {

broadcast use vstd::laws_cmp::group_laws_cmp, vstd::std_specs::btree::group_btree_axioms;

/// A parsed, deduped, sorted set of ports.
#[derive(Debug, Clone, PartialEq, Eq)]
pub struct PortSpec {
    pub ports: Vec<u16>,
}

/// The message of a port number that does not parse.
pub open spec fn bad_port_text(raw: Seq<char>, e: IntError) -> Seq<char> {
    "invalid port `"@ + raw + "`: "@ + int_error_text(e)
}

/// One port number as written, or the reason it is not one.
pub open spec fn port_number(raw: Seq<char>) -> Result<nat, Seq<char>> {
    match parse_uint(raw, 65535) {
        Ok(v) => Ok(v),
        Err(e) => Err(bad_port_text(raw, e)),
    }
}

/// The inclusive range of ports one non-empty, trimmed chunk denotes.
pub open spec fn chunk_range(c: Seq<char>) -> Result<(nat, nat), Seq<char>> {
    match split_once(c, '-') {
        Some((lo_raw, hi_raw)) => {
            let lo_s = trim(lo_raw);
            let hi_s = trim(hi_raw);
            let lo = if lo_s.len() == 0 {
                Ok(1nat)
            } else {
                port_number(lo_s)
            };
            match lo {
                Err(m) => Err(m),
                Ok(lo) => {
                    let hi = if hi_s.len() == 0 {
                        Ok(65535nat)
                    } else {
                        port_number(hi_s)
                    };
                    match hi {
                        Err(m) => Err(m),
                        Ok(hi) => if lo == 0 || hi == 0 {
                            Err("port 0 is not valid"@)
                        } else if lo > hi {
                            Err("range "@ + dec(lo) + " > "@ + dec(hi))
                        } else {
                            Ok((lo, hi))
                        },
                    }
                },
            }
        },
        None => match port_number(c) {
            Err(m) => Err(m),
            Ok(p) => if p == 0 {
                Err("port 0 is not valid"@)
            } else {
                Ok((p, p))
            },
        },
    }
}

pub open spec fn range_set(lo: nat, hi: nat) -> Set<nat> {
    Set::new(|p: nat| lo <= p <= hi)
}

/// The ports a list of comma-separated chunks denotes; the first bad chunk
/// decides the error. Chunks that are blank after trimming are skipped.
pub open spec fn chunks_ports(chunks: Seq<Seq<char>>) -> Result<Set<nat>, Seq<char>>
    decreases chunks.len(),
{
    if chunks.len() == 0 {
        Ok(Set::empty())
    } else {
        let c = trim(chunks[0]);
        let here = if c.len() == 0 {
            Ok(Set::<nat>::empty())
        } else {
            match chunk_range(c) {
                Ok((lo, hi)) => Ok(range_set(lo, hi)),
                Err(m) => Err(m),
            }
        };
        match here {
            Err(m) => Err(m),
            Ok(s) => match chunks_ports(chunks.drop_first()) {
                Err(m) => Err(m),
                Ok(t) => Ok(s + t),
            },
        }
    }
}

/// The set of ports a spec denotes, or the reason it is rejected.
pub open spec fn port_spec_result(spec: Seq<char>) -> Result<Set<nat>, Seq<char>> {
    let raw = trim(spec);
    if raw.len() == 0 {
        Err("empty"@)
    } else if raw == seq!['-'] {
        Ok(range_set(1, 65535))
    } else {
        match chunks_ports(split_on(raw, ',')) {
            Err(m) => Err(m),
            Ok(s) => if s == Set::<nat>::empty() {
                Err("no ports parsed"@)
            } else {
                Ok(s)
            },
        }
    }
}

/// Every range a chunk denotes lies within 1..=65535.
proof fn lemma_chunk_range_valid(c: Seq<char>)
    ensures
        chunk_range(c) matches Ok((lo, hi)) ==> 1 <= lo <= hi <= 65535,
{
    match split_once(c, '-') {
        Some((lo_raw, hi_raw)) => {
            lemma_parse_uint_bound(trim(lo_raw), 65535);
            lemma_parse_uint_bound(trim(hi_raw), 65535);
        },
        None => {
            lemma_parse_uint_bound(c, 65535);
        },
    }
}

/// Every port a list of chunks denotes lies within 1..=65535.
proof fn lemma_chunks_ports_valid(chunks: Seq<Seq<char>>)
    ensures
        chunks_ports(chunks) matches Ok(s) ==> forall|p: nat| #[trigger] s.contains(p) ==> 1 <= p
            <= 65535,
    decreases chunks.len(),
{
    if chunks.len() > 0 {
        lemma_chunk_range_valid(trim(chunks[0]));
        lemma_chunks_ports_valid(chunks.drop_first());
    }
}

/// A port list that `parse` accepts is never empty and never holds port 0:
/// whatever `lists_sorted` allows for an accepted spec starts at port 1 or
/// above and has at least one entry.
pub proof fn law_parsed_ports_are_valid(spec: Seq<char>, ports: Seq<u16>)
    requires
        port_spec_result(spec) matches Ok(s) && lists_sorted(ports, s),
    ensures
        ports.len() > 0,
        forall|i: int| 0 <= i < ports.len() ==> 1 <= #[trigger] ports[i],
{
    let s = port_spec_result(spec)->Ok_0;
    let raw = trim(spec);
    if raw != seq!['-'] {
        lemma_chunks_ports_valid(split_on(raw, ','));
    }
    assert forall|i: int| 0 <= i < ports.len() implies 1 <= #[trigger] ports[i] by {
        assert(s.contains(ports[i] as nat));
    }
    let p: nat = if raw == seq!['-'] {
        assert(s.contains(1nat));
        1
    } else {
        assert(s != Set::<nat>::empty());
        if forall|q: nat| !s.contains(q) {
            assert(s =~= Set::<nat>::empty());
        }
        choose|q: nat| s.contains(q)
    };
    assert(ports.contains(p as u16));
}

/// Nonblank chunk `i` of `chunks` (once trimmed) denotes a range holding `p`.
pub open spec fn chunk_covers(chunks: Seq<Seq<char>>, i: int, p: nat) -> bool {
    let c = trim(chunks[i]);
    c.len() > 0 && (chunk_range(c) matches Ok((lo, hi)) && lo <= p <= hi)
}

proof fn lemma_chunks_ports_members(chunks: Seq<Seq<char>>, p: nat)
    ensures
        chunks_ports(chunks) matches Ok(s) ==> (s.contains(p) <==> exists|i: int|
            0 <= i < chunks.len() && #[trigger] chunk_covers(chunks, i, p)),
    decreases chunks.len(),
{
    if chunks.len() > 0 {
        let rest = chunks.drop_first();
        lemma_chunks_ports_members(rest, p);
        if chunks_ports(chunks) is Ok {
            let s = chunks_ports(chunks)->Ok_0;
            let t = chunks_ports(rest)->Ok_0;
            if s.contains(p) {
                if chunk_covers(chunks, 0, p) {
                } else {
                    assert(t.contains(p));
                    let j = choose|j: int| 0 <= j < rest.len() && #[trigger] chunk_covers(rest, j, p);
                    assert(rest[j] == chunks[j + 1]);
                    assert(chunk_covers(chunks, j + 1, p));
                }
            }
            if exists|i: int| 0 <= i < chunks.len() && #[trigger] chunk_covers(chunks, i, p) {
                let i = choose|i: int| 0 <= i < chunks.len() && #[trigger] chunk_covers(chunks, i, p);
                if i > 0 {
                    assert(rest[i - 1] == chunks[i]);
                    assert(chunk_covers(rest, i - 1, p));
                }
            }
        }
    }
}

/// What an accepted port list holds: with `-` every port from 1 up; else
/// exactly the ports some nonblank comma-separated chunk covers (a single
/// port, or a range whose blank ends stand for 1 and 65535).
pub proof fn law_port_spec_membership(spec: Seq<char>, ports: Seq<u16>, p: u16)
    requires
        port_spec_result(spec) matches Ok(s) && lists_sorted(ports, s),
    ensures
        trim(spec) == seq!['-'] ==> (ports.contains(p) <==> p >= 1),
        trim(spec) != seq!['-'] ==> (ports.contains(p) <==> exists|i: int|
            0 <= i < split_on(trim(spec), ',').len() && #[trigger] chunk_covers(
                split_on(trim(spec), ','),
                i,
                p as nat,
            )),
{
    let s = port_spec_result(spec)->Ok_0;
    if ports.contains(p) {
        let i = choose|i: int| 0 <= i < ports.len() && ports[i] == p;
        assert(s.contains(ports[i] as nat));
    }
    if s.contains(p as nat) {
        assert(ports.contains(p as nat as u16));
    }
    if trim(spec) != seq!['-'] {
        lemma_chunks_ports_members(split_on(trim(spec), ','), p as nat);
    }
}

/// `ports` lists exactly the members of `s`, in strictly increasing order.
pub open spec fn lists_sorted(ports: Seq<u16>, s: Set<nat>) -> bool {
    &&& forall|i: int, j: int| 0 <= i < j < ports.len() ==> ports[i] < ports[j]
    &&& forall|i: int| 0 <= i < ports.len() ==> s.contains(#[trigger] ports[i] as nat)
    &&& forall|p: nat| #[trigger] s.contains(p) ==> p <= 65535 && ports.contains(p as u16)
}

/// A port number as written: `Ok(port)` or the message of the error.
fn parse_u16(raw: &Vec<char>) -> (r: Result<u32, Vec<char>>)
    ensures
        match r {
            Ok(v) => port_number(raw@) == Ok::<nat, Seq<char>>(v as nat),
            Err(m) => port_number(raw@) == Err::<nat, Seq<char>>(m@),
        },
{
    match parse_uint_chars(raw, 65535) {
        Ok(v) => Ok(v),
        Err(e) => {
            let mut m = chars_of("invalid port `");
            push_all(&mut m, raw);
            push_str(&mut m, "`: ");
            let em = int_error_message(e);
            push_all(&mut m, &em);
            Err(m)
        },
    }
}

fn zero_port_message() -> (m: Vec<char>)
    ensures
        m@ == "port 0 is not valid"@,
{
    chars_of("port 0 is not valid")
}

/// The inclusive range a non-empty, trimmed chunk denotes.
fn chunk_range_exec(c: &Vec<char>) -> (r: Result<(u32, u32), Vec<char>>)
    ensures
        match r {
            Ok((lo, hi)) => chunk_range(c@) == Ok::<(nat, nat), Seq<char>>(
                (lo as nat, hi as nat),
            ) && 1 <= lo <= hi <= 65535,
            Err(m) => chunk_range(c@) == Err::<(nat, nat), Seq<char>>(m@),
        },
{
    match split_once_chars(c, '-') {
        Some((lo_raw, hi_raw)) => {
            let lo_s = trimmed(&lo_raw);
            let hi_s = trimmed(&hi_raw);
            let lo: u32 = if lo_s.len() == 0 {
                1
            } else {
                match parse_u16(&lo_s) {
                    Ok(v) => v,
                    Err(m) => return Err(m),
                }
            };
            let hi: u32 = if hi_s.len() == 0 {
                65535
            } else {
                match parse_u16(&hi_s) {
                    Ok(v) => v,
                    Err(m) => return Err(m),
                }
            };
            proof {
                lemma_parse_uint_bound(lo_s@, 65535);
                lemma_parse_uint_bound(hi_s@, 65535);
            }
            if lo == 0 || hi == 0 {
                return Err(zero_port_message());
            }
            if lo > hi {
                let mut m = chars_of("range ");
                push_dec(&mut m, lo as u64);
                push_str(&mut m, " > ");
                push_dec(&mut m, hi as u64);
                return Err(m);
            }
            Ok((lo, hi))
        },
        None => {
            let p = match parse_u16(c) {
                Ok(v) => v,
                Err(m) => return Err(m),
            };
            proof {
                lemma_parse_uint_bound(c@, 65535);
            }
            if p == 0 {
                return Err(zero_port_message());
            }
            Ok((p, p))
        },
    }
}

/// The ports a set of `u16` holds, as numbers.
pub open spec fn marked(set: Set<u16>) -> Set<nat> {
    Set::new(|p: nat| p <= 65535 && set.contains(p as u16))
}

fn mark_range(marks: &mut BTreeSet<u16>, lo: u32, hi: u32)
    requires
        1 <= lo <= hi <= 65535,
    ensures
        marked(final(marks)@) == marked(old(marks)@) + range_set(lo as nat, hi as nat),
{
    let mut p: u32 = lo;
    assert(marked(marks@) =~= marked(old(marks)@) + range_set(lo as nat, (p - 1) as nat));
    while p <= hi
        invariant
            1 <= lo <= p <= hi + 1,
            hi <= 65535,
            marked(marks@) == marked(old(marks)@) + range_set(lo as nat, (p - 1) as nat),
        decreases hi + 1 - p,
    {
        let ghost prev = marks@;
        let ghost pp = p as nat;
        marks.insert(p as u16);
        assert(marks@ == prev.insert(p as u16));
        assert forall|q: nat|
            marked(marks@).contains(q) == (marked(prev).contains(q) || q == pp) by {
            if q <= 65535 && q != pp {
                assert(q as u16 != p as u16);
            }
        }
        assert(marked(prev) == marked(old(marks)@) + range_set(lo as nat, (pp - 1) as nat));
        assert forall|q: nat|
            marked(marks@).contains(q) == (marked(old(marks)@) + range_set(
                lo as nat,
                pp,
            )).contains(q) by {
            assert(range_set(lo as nat, pp).contains(q) == (lo <= q <= pp));
            assert(range_set(lo as nat, (pp - 1) as nat).contains(q) == (lo <= q <= pp - 1));
            assert(marked(prev).contains(q) == (marked(old(marks)@).contains(q) || range_set(
                lo as nat,
                (pp - 1) as nat,
            ).contains(q)));
            assert(marked(marks@).contains(q) == (marked(prev).contains(q) || q == pp));
        }
        assert(marked(marks@) =~= marked(old(marks)@) + range_set(lo as nat, pp));
        p = p + 1;
    }
}

impl PortSpec {
    pub fn parse(spec: &str) -> (r: Result<PortSpec, Error>)
        ensures
            r is Ok <==> port_spec_result(spec@) is Ok,
            r matches Ok(ps) ==> port_spec_result(spec@) matches Ok(s) && lists_sorted(
                ps.ports@,
                s,
            ),
            r matches Err(e) ==> port_spec_result(spec@) matches Err(m) && e matches Error::Ports(
                given,
                why,
            ) && given@ == spec@ && why@ == m,
    {
        let all = chars_of(spec);
        let raw = trimmed(&all);
        if raw.len() == 0 {
            return Err(Error::Ports(string_of(&all), string_of(&chars_of("empty"))));
        }
        let mut marks: BTreeSet<u16> = BTreeSet::new();
        assert(marked(marks@) =~= Set::<nat>::empty());
        if raw.len() == 1 && raw[0] == '-' {
            assert(raw@ =~= seq!['-']);
            mark_range(&mut marks, 1, 65535);
            assert(marked(marks@) =~= range_set(1, 65535));
            let ports = collect_marked(&marks);
            return Ok(PortSpec { ports });
        }
        assert(raw@ != seq!['-']);
        let pieces = split_chars(&raw, ',');
        let ghost chunks = split_on(raw@, ',');
        let mut k: usize = 0;
        assert(chunks.skip(0) =~= chunks);
        proof {
            match chunks_ports(chunks) {
                Ok(t) => {
                    assert(marked(marks@) + t =~= t);
                },
                Err(m) => {},
            }
        }
        while k < pieces.len()
            invariant
                0 <= k <= pieces.len(),
                pieces@.len() == chunks.len(),
                forall|i: int| 0 <= i < pieces@.len() ==> #[trigger] pieces@[i]@ == chunks[i],
                chunks == split_on(raw@, ','),
                all@ == spec@,
                raw@ == trim(spec@),
                raw@.len() > 0,
                raw@ != seq!['-'],
                forall|p: nat| #[trigger] marked(marks@).contains(p) ==> 1 <= p <= 65535,
                match chunks_ports(chunks.skip(k as int)) {
                    Ok(t) => chunks_ports(chunks) == Ok::<Set<nat>, Seq<char>>(
                        marked(marks@) + t,
                    ),
                    Err(m) => chunks_ports(chunks) == Err::<Set<nat>, Seq<char>>(m),
                },
            decreases pieces.len() - k,
        {
            let ghost before = marked(marks@);
            assert(chunks.skip(k as int).drop_first() =~= chunks.skip(k + 1));
            assert(chunks.skip(k as int)[0] == chunks[k as int]);
            let c = trimmed(&pieces[k]);
            if c.len() > 0 {
                match chunk_range_exec(&c) {
                    Ok((lo, hi)) => {
                        mark_range(&mut marks, lo, hi);
                        proof {
                            match chunks_ports(chunks.skip(k + 1)) {
                                Ok(t) => {
                                    assert(before + (range_set(lo as nat, hi as nat) + t) =~= (
                                    before + range_set(lo as nat, hi as nat)) + t);
                                },
                                Err(m) => {},
                            }
                        }
                    },
                    Err(m) => {
                        assert(c@ == trim(chunks.skip(k as int)[0]));
                        assert(chunks_ports(chunks.skip(k as int)) == Err::<Set<nat>, Seq<char>>(
                            m@,
                        ));
                        assert(chunks_ports(chunks) == Err::<Set<nat>, Seq<char>>(m@));
                        assert(port_spec_result(spec@) == Err::<Set<nat>, Seq<char>>(m@));
                        return Err(Error::Ports(string_of(&all), string_of(&m)));
                    },
                }
            } else {
                proof {
                    match chunks_ports(chunks.skip(k + 1)) {
                        Ok(t) => {
                            assert(Set::<nat>::empty() + t =~= t);
                        },
                        Err(m) => {},
                    }
                }
            }
            k = k + 1;
        }
        assert(chunks.skip(k as int) =~= Seq::<Seq<char>>::empty());
        assert(marked(marks@) + Set::<nat>::empty() =~= marked(marks@));
        let ports = collect_marked(&marks);
        if ports.len() == 0 {
            assert(marked(marks@) =~= Set::<nat>::empty()) by {
                assert forall|p: nat| !marked(marks@).contains(p) by {
                    if marked(marks@).contains(p) {
                        assert(ports@.contains(p as u16));
                    }
                }
            }
            return Err(Error::Ports(string_of(&all), string_of(&chars_of("no ports parsed"))));
        }
        assert(marked(marks@) != Set::<nat>::empty()) by {
            assert(marked(marks@).contains(ports@[0] as nat));
        }
        Ok(PortSpec { ports })
    }

    pub fn len(&self) -> (n: usize)
        ensures
            n == self.ports@.len(),
    {
        self.ports.len()
    }

    pub fn is_empty(&self) -> (b: bool)
        ensures
            b == (self.ports@.len() == 0),
    {
        self.ports.len() == 0
    }
}

/// The marked ports 1..=65535 in increasing order.
fn collect_marked(marks: &BTreeSet<u16>) -> (ports: Vec<u16>)
    requires
        forall|p: nat| #[trigger] marked(marks@).contains(p) ==> 1 <= p <= 65535,
    ensures
        lists_sorted(ports@, marked(marks@)),
{
    let mut ports: Vec<u16> = Vec::new();
    let mut p: u32 = 1;
    while p <= 65535
        invariant
            1 <= p <= 65536,
            forall|i: int, j: int| 0 <= i < j < ports@.len() ==> ports@[i] < ports@[j],
            forall|i: int| 0 <= i < ports@.len() ==> ports@[i] < p,
            forall|i: int|
                0 <= i < ports@.len() ==> marked(marks@).contains(#[trigger] ports@[i] as nat),
            forall|q: nat|
                #[trigger] marked(marks@).contains(q) && q < p ==> ports@.contains(q as u16),
        decreases 65536 - p,
    {
        let ghost prev = ports@;
        let port: u16 = p as u16;
        if marks.contains(&port) {
            ports.push(p as u16);
            assert(ports@[ports@.len() - 1] == p as u16);
        }
        assert forall|q: nat| #[trigger]
            marked(marks@).contains(q) && q < p + 1 implies ports@.contains(q as u16) by {
            if q < p {
                let i = choose|i: int| 0 <= i < prev.len() && prev[i] == q as u16;
                assert(ports@[i] == q as u16);
            } else {
                assert(marks@.contains(p as u16));
                assert(ports@[ports@.len() - 1] == p as u16);
            }
        }
        p = p + 1;
    }
    ports
}

} // verus!
