//! JSON output: which report the JSON document holds. With `only_open` the
//! ports that are not open are left out; the document itself is written by
//! serde outside this crate.
use crate::result::{copy_opt_string, copy_port, HostResult, PortResult, PortState, ScanReport};
use vstd::prelude::*;

verus! {

/// The open ports of a list, in order.
pub open spec fn open_only(ports: Seq<PortResult>) -> Seq<PortResult>
    decreases ports.len(),
{
    if ports.len() == 0 {
        Seq::empty()
    } else if ports.last().state == PortState::Open {
        open_only(ports.drop_last()).push(ports.last())
    } else {
        open_only(ports.drop_last())
    }
}

/// The ports of a host that the document lists.
pub open spec fn listed_ports(ports: Seq<PortResult>, only_open: bool) -> Seq<PortResult> {
    if only_open {
        open_only(ports)
    } else {
        ports
    }
}

/// `b` is host `a` with its listed ports.
pub open spec fn host_selected(a: HostResult, b: HostResult, only_open: bool) -> bool {
    &&& b.address == a.address
    &&& b.hostname == a.hostname
    &&& b.state == a.state
    &&& b.reason == a.reason
    &&& b.ports@ == listed_ports(a.ports@, only_open)
    &&& b.started_at == a.started_at
    &&& b.ended_at == a.ended_at
    &&& b.elapsed == a.elapsed
}

/// `b` is report `a` with each host's listed ports.
pub open spec fn report_selected(a: ScanReport, b: ScanReport, only_open: bool) -> bool {
    &&& b.scanner == a.scanner
    &&& b.version == a.version
    &&& b.args@ == a.args@
    &&& b.started_at == a.started_at
    &&& b.ended_at == a.ended_at
    &&& b.elapsed == a.elapsed
    &&& b.hosts@.len() == a.hosts@.len()
    &&& forall|i: int|
        0 <= i < a.hosts@.len() ==> host_selected(a.hosts@[i], #[trigger] b.hosts@[i], only_open)
}

fn listed(ports: &Vec<PortResult>, only_open: bool) -> (c: Vec<PortResult>)
    ensures
        c@ == listed_ports(ports@, only_open),
{
    let mut c: Vec<PortResult> = Vec::new();
    let mut i: usize = 0;
    while i < ports.len()
        invariant
            i <= ports.len(),
            c@ == listed_ports(ports@.take(i as int), only_open),
        decreases ports.len() - i,
    {
        assert(ports@.take(i + 1).drop_last() =~= ports@.take(i as int));
        if !only_open || ports[i].state == PortState::Open {
            c.push(copy_port(&ports[i]));
        }
        i = i + 1;
        assert(c@ =~= listed_ports(ports@.take(i as int), only_open));
    }
    assert(ports@.take(ports.len() as int) =~= ports@);
    c
}

fn copy_strings(v: &Vec<String>) -> (c: Vec<String>)
    ensures
        c@ == v@,
{
    let mut c: Vec<String> = Vec::new();
    let mut i: usize = 0;
    while i < v.len()
        invariant
            i <= v.len(),
            c@ == v@.take(i as int),
        decreases v.len() - i,
    {
        c.push(v[i].clone());
        i = i + 1;
        assert(c@ =~= v@.take(i as int));
    }
    assert(v@.take(v.len() as int) =~= v@);
    c
}

/// The report the JSON document holds: a copy of `r`, where with
/// `only_open` every host keeps only its open ports.
pub fn selected(r: &ScanReport, only_open: bool) -> (c: ScanReport)
    ensures
        report_selected(*r, c, only_open),
{
    let mut hosts: Vec<HostResult> = Vec::new();
    let mut i: usize = 0;
    while i < r.hosts.len()
        invariant
            i <= r.hosts.len(),
            hosts@.len() == i,
            forall|j: int| 0 <= j < i ==> host_selected(r.hosts@[j], #[trigger] hosts@[j], only_open),
        decreases r.hosts.len() - i,
    {
        let h = &r.hosts[i];
        hosts.push(
            HostResult {
                address: h.address,
                hostname: copy_opt_string(&h.hostname),
                state: h.state,
                reason: h.reason.clone(),
                ports: listed(&h.ports, only_open),
                started_at: h.started_at,
                ended_at: h.ended_at,
                elapsed: h.elapsed,
            },
        );
        i = i + 1;
    }
    ScanReport {
        scanner: r.scanner.clone(),
        version: r.version.clone(),
        args: copy_strings(&r.args),
        started_at: r.started_at,
        ended_at: r.ended_at,
        elapsed: r.elapsed,
        hosts,
    }
}

} // verus!
