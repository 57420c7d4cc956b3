//! Scan result data model. Designed to round-trip through normal/XML/JSON outputs.
use crate::addr::IpAddr;
use crate::timing::TimeSpan;
use vstd::prelude::*;

verus! {

#[derive(Debug, Clone, Copy, PartialEq, Eq, Structural)]
pub enum Protocol {
    Tcp,
    Udp,
}

#[derive(Debug, Clone, Copy, PartialEq, Eq, Structural)]
pub enum PortState {
    Open,
    Closed,
    Filtered,
    Unfiltered,
}

#[derive(Debug, Clone, Copy, PartialEq, Eq, Structural)]
pub enum HostState {
    Up,
    Down,
    Unknown,
}

/// The lowercase name `Display` writes for a protocol.
pub open spec fn protocol_text(p: Protocol) -> Seq<char> {
    match p {
        Protocol::Tcp => "tcp"@,
        Protocol::Udp => "udp"@,
    }
}

/// The lowercase name `Display` writes for a port state.
pub open spec fn port_state_text(s: PortState) -> Seq<char> {
    match s {
        PortState::Open => "open"@,
        PortState::Closed => "closed"@,
        PortState::Filtered => "filtered"@,
        PortState::Unfiltered => "unfiltered"@,
    }
}

/// The lowercase name of a host state.
pub open spec fn host_state_text(s: HostState) -> Seq<char> {
    match s {
        HostState::Up => "up"@,
        HostState::Down => "down"@,
        HostState::Unknown => "unknown"@,
    }
}

impl Protocol {
    /// The lowercase name, as `Display` writes it.
    pub fn as_str(&self) -> (s: &'static str)
        ensures
            s@ == protocol_text(*self),
    {
        match self {
            Protocol::Tcp => "tcp",
            Protocol::Udp => "udp",
        }
    }
}

impl PortState {
    /// The lowercase name, as `Display` writes it.
    pub fn as_str(&self) -> (s: &'static str)
        ensures
            s@ == port_state_text(*self),
    {
        match self {
            PortState::Open => "open",
            PortState::Closed => "closed",
            PortState::Filtered => "filtered",
            PortState::Unfiltered => "unfiltered",
        }
    }
}

impl HostState {
    /// The lowercase name.
    pub fn as_str(&self) -> (s: &'static str)
        ensures
            s@ == host_state_text(*self),
    {
        match self {
            HostState::Up => "up",
            HostState::Down => "down",
            HostState::Unknown => "unknown",
        }
    }
}

/// A point in time: seconds since the Unix epoch plus nanoseconds.
#[derive(Debug, Clone, Copy, PartialEq, Eq, Hash, PartialOrd, Ord)]
pub struct Timestamp {
    pub secs: i64,
    pub nanos: u32,
}

#[derive(Debug, Clone)]
pub struct ServiceInfo {
    pub name: String,
    pub product: Option<String>,
    pub version: Option<String>,
    pub banner: Option<String>,
}

#[derive(Debug, Clone)]
pub struct PortResult {
    pub port: u16,
    pub protocol: Protocol,
    pub state: PortState,
    pub reason: String,
    pub service: Option<ServiceInfo>,
    /// Round-trip time of the probe that determined state, in milliseconds.
    pub rtt_ms: Option<u64>,
}

#[derive(Debug, Clone)]
pub struct HostResult {
    pub address: IpAddr,
    pub hostname: Option<String>,
    pub state: HostState,
    pub reason: String,
    pub ports: Vec<PortResult>,
    pub started_at: Timestamp,
    pub ended_at: Timestamp,
    pub elapsed: TimeSpan,
}

#[derive(Debug, Clone)]
pub struct ScanReport {
    pub scanner: String,
    pub version: String,
    pub args: Vec<String>,
    pub started_at: Timestamp,
    pub ended_at: Timestamp,
    pub elapsed: TimeSpan,
    pub hosts: Vec<HostResult>,
}

/// Number of hosts that are up.
pub open spec fn up_hosts(hosts: Seq<HostResult>) -> nat
    decreases hosts.len(),
{
    if hosts.len() == 0 {
        0
    } else {
        up_hosts(hosts.drop_last()) + if hosts.last().state == HostState::Up {
            1nat
        } else {
            0nat
        }
    }
}

/// Number of open ports in a list.
pub open spec fn open_ports(ports: Seq<PortResult>) -> nat
    decreases ports.len(),
{
    if ports.len() == 0 {
        0
    } else {
        open_ports(ports.drop_last()) + if ports.last().state == PortState::Open {
            1nat
        } else {
            0nat
        }
    }
}

/// Number of open ports over all hosts.
pub open spec fn open_ports_of_hosts(hosts: Seq<HostResult>) -> nat
    decreases hosts.len(),
{
    if hosts.len() == 0 {
        0
    } else {
        open_ports_of_hosts(hosts.drop_last()) + open_ports(hosts.last().ports@)
    }
}

pub proof fn lemma_open_ports_of_hosts_mono(hosts: Seq<HostResult>, i: int)
    requires
        0 <= i <= hosts.len(),
    ensures
        open_ports_of_hosts(hosts.take(i)) <= open_ports_of_hosts(hosts),
    decreases hosts.len(),
{
    if i < hosts.len() {
        assert(hosts.drop_last().take(i) =~= hosts.take(i));
        lemma_open_ports_of_hosts_mono(hosts.drop_last(), i);
    } else {
        assert(hosts.take(i) =~= hosts);
    }
}

/// The open-port count counts exactly the ports whose state is `Open`: it
/// is the length of the list of open ports, and a closed, filtered or
/// unfiltered port adds nothing.
pub proof fn law_open_ports_counts_open(ports: Seq<PortResult>)
    ensures
        open_ports(ports) == ports.filter(|p: PortResult| p.state == PortState::Open).len(),
        forall|p: PortResult| p.state != PortState::Open ==> #[trigger] open_ports(seq![p]) == 0,
        forall|p: PortResult| p.state == PortState::Open ==> #[trigger] open_ports(seq![p]) == 1,
    decreases ports.len(),
{
    reveal(Seq::filter);
    if ports.len() > 0 {
        law_open_ports_counts_open(ports.drop_last());
    }
    assert forall|p: PortResult| #[trigger] open_ports(seq![p]) == if p.state == PortState::Open {
        1nat
    } else {
        0nat
    } by {
        assert(seq![p].drop_last() =~= Seq::<PortResult>::empty());
        assert(open_ports(Seq::<PortResult>::empty()) == 0);
        assert(seq![p].last() == p);
    }
}

/// Counts the open ports of one host.
pub fn count_open(ports: &Vec<PortResult>) -> (n: usize)
    ensures
        n == open_ports(ports@),
        n == ports@.filter(|p: PortResult| p.state == PortState::Open).len(),
{
    proof {
        law_open_ports_counts_open(ports@);
    }
    let mut n: usize = 0;
    let mut i: usize = 0;
    while i < ports.len()
        invariant
            i <= ports.len(),
            n == open_ports(ports@.take(i as int)),
            n <= i,
        decreases ports.len() - i,
    {
        assert(ports@.take(i + 1).drop_last() =~= ports@.take(i as int));
        if ports[i].state == PortState::Open {
            n = n + 1;
        }
        i = i + 1;
    }
    assert(ports@.take(ports.len() as int) =~= ports@);
    n
}

impl ScanReport {
    pub fn host_count(&self) -> (n: usize)
        ensures
            n == self.hosts@.len(),
    {
        self.hosts.len()
    }

    pub fn up_count(&self) -> (n: usize)
        ensures
            n == up_hosts(self.hosts@),
    {
        let mut n: usize = 0;
        let mut i: usize = 0;
        while i < self.hosts.len()
            invariant
                i <= self.hosts.len(),
                n == up_hosts(self.hosts@.take(i as int)),
                n <= i,
            decreases self.hosts.len() - i,
        {
            assert(self.hosts@.take(i + 1).drop_last() =~= self.hosts@.take(i as int));
            if self.hosts[i].state == HostState::Up {
                n = n + 1;
            }
            i = i + 1;
        }
        assert(self.hosts@.take(self.hosts.len() as int) =~= self.hosts@);
        n
    }

    pub fn open_port_count(&self) -> (n: usize)
        requires
            open_ports_of_hosts(self.hosts@) <= usize::MAX,
        ensures
            n == open_ports_of_hosts(self.hosts@),
    {
        let mut n: usize = 0;
        let mut i: usize = 0;
        while i < self.hosts.len()
            invariant
                i <= self.hosts.len(),
                n == open_ports_of_hosts(self.hosts@.take(i as int)),
                open_ports_of_hosts(self.hosts@) <= usize::MAX,
            decreases self.hosts.len() - i,
        {
            assert(self.hosts@.take(i + 1).drop_last() =~= self.hosts@.take(i as int));
            proof {
                lemma_open_ports_of_hosts_mono(self.hosts@, i + 1);
            }
            let k = count_open(&self.hosts[i].ports);
            n = n + k;
            i = i + 1;
        }
        assert(self.hosts@.take(self.hosts.len() as int) =~= self.hosts@);
        n
    }
}

pub(crate) fn copy_opt_string(o: &Option<String>) -> (c: Option<String>)
    ensures
        c == *o,
{
    match o {
        Some(s) => Some(s.clone()),
        None => None,
    }
}

pub(crate) fn copy_service(s: &ServiceInfo) -> (c: ServiceInfo)
    ensures
        c == *s,
{
    ServiceInfo {
        name: s.name.clone(),
        product: copy_opt_string(&s.product),
        version: copy_opt_string(&s.version),
        banner: copy_opt_string(&s.banner),
    }
}

pub(crate) fn copy_port(p: &PortResult) -> (c: PortResult)
    ensures
        c == *p,
{
    PortResult {
        port: p.port,
        protocol: p.protocol,
        state: p.state,
        reason: p.reason.clone(),
        service: match &p.service {
            Some(s) => Some(copy_service(s)),
            None => None,
        },
        rtt_ms: p.rtt_ms,
    }
}

/// `ports` in increasing port order.
pub open spec fn sorted_by_port(ports: Seq<PortResult>) -> bool {
    forall|a: int, b: int| 0 <= a < b < ports.len() ==> ports[a].port <= ports[b].port
}

/// The port results ordered by port number (`sort_by_key(|p| p.port)`): the
/// same results, in increasing port order.
pub fn sort_by_port(ports: &Vec<PortResult>) -> (r: Vec<PortResult>)
    ensures
        sorted_by_port(r@),
        r@.to_multiset() == ports@.to_multiset(),
{
    let mut r: Vec<PortResult> = Vec::new();
    let mut i: usize = 0;
    assert(ports@.take(0) =~= Seq::<PortResult>::empty());
    while i < ports.len()
        invariant
            i <= ports.len(),
            sorted_by_port(r@),
            r@.to_multiset() == ports@.take(i as int).to_multiset(),
        decreases ports.len() - i,
    {
        let x = copy_port(&ports[i]);
        let mut pos: usize = 0;
        while pos < r.len() && r[pos].port <= x.port
            invariant
                pos <= r.len(),
                forall|k: int| 0 <= k < pos ==> r@[k].port <= x.port,
            decreases r.len() - pos,
        {
            pos = pos + 1;
        }
        let ghost old_r = r@;
        assert(pos < old_r.len() ==> old_r[pos as int].port > x.port);
        r.insert(pos, x);
        assert(r@ == old_r.insert(pos as int, x));
        assert forall|a: int, b: int| 0 <= a < b < r@.len() implies r@[a].port <= r@[b].port by {
            if b < pos {
            } else if b == pos {
                assert(r@[a] == old_r[a]);
            } else if a < pos {
                assert(r@[b] == old_r[b - 1]);
                assert(old_r[pos as int].port > x.port);
                assert(old_r[pos as int].port <= old_r[b - 1].port || b - 1 == pos);
            } else if a == pos {
                assert(r@[b] == old_r[b - 1]);
                assert(old_r[pos as int].port <= old_r[b - 1].port || b - 1 == pos);
            } else {
                assert(r@[a] == old_r[a - 1] && r@[b] == old_r[b - 1]);
            }
        }
        assert(ports@.take(i + 1) =~= ports@.take(i as int).push(ports@[i as int]));
        proof {
            vstd::seq_lib::to_multiset_insert(old_r, pos as int, x);
            vstd::seq_lib::to_multiset_build(ports@.take(i as int), ports@[i as int]);
        }
        assert(x == ports@[i as int]);
        i = i + 1;
    }
    assert(ports@.take(ports.len() as int) =~= ports@);
    r
}

} // verus!
