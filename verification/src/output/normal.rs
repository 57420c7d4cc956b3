//! Nmap-style human-readable text output.
use crate::addr::ip_text;
use crate::output::{format_utc, pad, push_padded, report_time_pattern, utc_format_of};
use crate::result::{
    host_state_text, open_ports_of_hosts, port_state_text, protocol_text, up_hosts, HostResult, HostState,
    PortResult, PortState, ScanReport, ServiceInfo,
};
use crate::text::{chars_of, dec, join_space, push_all, push_dec, push_joined, push_str, strings_text};
use vstd::prelude::*;

verus! {

/// `name (ip)` when the host has a name, else the address.
pub open spec fn host_display(h: HostResult) -> Seq<char> {
    match h.hostname {
        Some(n) => n@ + " ("@ + ip_text(h.address) + ")"@,
        None => ip_text(h.address),
    }
}

/// The SERVICE column: the service name, or `-`.
pub open spec fn service_column(svc: Option<ServiceInfo>) -> Seq<char> {
    match svc {
        Some(s) => s.name@,
        None => "-"@,
    }
}

/// The VERSION column: product, then version after a space when known.
pub open spec fn version_column(svc: Option<ServiceInfo>) -> Seq<char> {
    match svc {
        Some(s) => match s.product {
            Some(p) => match s.version {
                Some(v) => p@ + seq![' '] + v@,
                None => p@,
            },
            None => Seq::empty(),
        },
        None => Seq::empty(),
    }
}

/// One row of the port table.
pub open spec fn port_line(p: PortResult) -> Seq<char> {
    pad(dec(p.port as nat) + seq!['/'] + protocol_text(p.protocol), 10) + pad(
        port_state_text(p.state),
        13,
    ) + pad(service_column(p.service), 16) + version_column(p.service) + seq!['\n']
}

/// Whether a port is listed.
pub open spec fn shown(p: PortResult, only_open: bool) -> bool {
    !only_open || p.state == PortState::Open
}

/// Number of listed ports.
pub open spec fn shown_count(ports: Seq<PortResult>, only_open: bool) -> nat
    decreases ports.len(),
{
    if ports.len() == 0 {
        0
    } else {
        shown_count(ports.drop_last(), only_open) + if shown(ports.last(), only_open) {
            1nat
        } else {
            0nat
        }
    }
}

/// The rows of the listed ports, in order.
pub open spec fn port_lines(ports: Seq<PortResult>, only_open: bool) -> Seq<char>
    decreases ports.len(),
{
    if ports.len() == 0 {
        Seq::empty()
    } else {
        port_lines(ports.drop_last(), only_open) + if shown(ports.last(), only_open) {
            port_line(ports.last())
        } else {
            Seq::empty()
        }
    }
}

/// The first two lines of a host's section.
pub open spec fn host_head(h: HostResult) -> Seq<char> {
    "rnmap scan report for "@ + host_display(h) + seq!['\n'] + "Host is "@ + host_state_text(
        h.state,
    ) + " ("@ + h.reason@ + ")"@ + seq!['\n']
}

/// The port table of a host that is up.
pub open spec fn host_body(h: HostResult, only_open: bool) -> Seq<char> {
    if shown_count(h.ports@, only_open) == 0 {
        "(no ports "@ + (if only_open {
            "open"@
        } else {
            "scanned"@
        }) + ")"@ + seq!['\n']
    } else {
        "PORT      STATE        SERVICE         VERSION"@ + seq!['\n'] + port_lines(
            h.ports@,
            only_open,
        )
    }
}

/// The section of one host.
pub open spec fn host_block(h: HostResult, only_open: bool) -> Seq<char> {
    if h.state != HostState::Up {
        host_head(h) + seq!['\n']
    } else {
        host_head(h) + host_body(h, only_open) + seq!['\n']
    }
}

pub open spec fn host_blocks(hosts: Seq<HostResult>, only_open: bool) -> Seq<char>
    decreases hosts.len(),
{
    if hosts.len() == 0 {
        Seq::empty()
    } else {
        host_blocks(hosts.drop_last(), only_open) + host_block(hosts.last(), only_open)
    }
}

/// `s` after a count other than one.
pub open spec fn plural(n: nat) -> Seq<char> {
    if n == 1 {
        Seq::empty()
    } else {
        "s"@
    }
}

/// The whole report, given the text of the start time and of the elapsed
/// seconds.
pub open spec fn normal_text(r: ScanReport, only_open: bool, started: Seq<char>, elapsed: Seq<
    char,
>) -> Seq<char> {
    let hc = r.hosts@.len();
    let up = up_hosts(r.hosts@);
    let open = open_ports_of_hosts(r.hosts@);
    "# "@ + r.scanner@ + seq![' '] + r.version@ + " scan initiated "@ + started + seq!['\n']
        + "# args: "@ + join_space(strings_text(r.args@)) + seq!['\n'] + seq!['\n'] + host_blocks(
        r.hosts@,
        only_open,
    ) + "# rnmap done: "@ + dec(hc) + " host"@ + plural(hc) + " scanned, "@ + dec(up)
        + " up, "@ + dec(open) + " open port"@ + plural(open) + " in "@ + elapsed + "s"@
        + seq!['\n']
}

fn push_port_line(out: &mut Vec<char>, p: &PortResult)
    ensures
        final(out)@ == old(out)@ + port_line(*p),
{
    let mut pp: Vec<char> = Vec::new();
    push_dec(&mut pp, p.port as u64);
    pp.push('/');
    push_str(&mut pp, p.protocol.as_str());
    push_padded(out, &pp, 10);
    let st = chars_of(p.state.as_str());
    push_padded(out, &st, 13);
    let svc = match &p.service {
        Some(s) => chars_of(s.name.as_str()),
        None => chars_of("-"),
    };
    push_padded(out, &svc, 16);
    match &p.service {
        Some(s) => match &s.product {
            Some(prod) => {
                push_str(out, prod.as_str());
                match &s.version {
                    Some(v) => {
                        out.push(' ');
                        push_str(out, v.as_str());
                    },
                    None => {},
                }
            },
            None => {},
        },
        None => {},
    }
    out.push('\n');
    assert(pp@ =~= dec(p.port as nat) + seq!['/'] + protocol_text(p.protocol));
    assert(out@ =~= old(out)@ + port_line(*p));
}

fn push_port_lines(out: &mut Vec<char>, ports: &Vec<PortResult>, only_open: bool) -> (n: usize)
    ensures
        final(out)@ == old(out)@ + port_lines(ports@, only_open),
        n == shown_count(ports@, only_open),
{
    let mut n: usize = 0;
    let mut i: usize = 0;
    while i < ports.len()
        invariant
            i <= ports.len(),
            n <= i,
            n == shown_count(ports@.take(i as int), only_open),
            out@ == old(out)@ + port_lines(ports@.take(i as int), only_open),
        decreases ports.len() - i,
    {
        assert(ports@.take(i + 1).drop_last() =~= ports@.take(i as int));
        let ghost before = out@;
        if !only_open || ports[i].state == PortState::Open {
            push_port_line(out, &ports[i]);
            n = n + 1;
        }
        i = i + 1;
        assert(out@ =~= old(out)@ + port_lines(ports@.take(i as int), only_open));
    }
    assert(ports@.take(ports.len() as int) =~= ports@);
    n
}

fn push_host_head(out: &mut Vec<char>, h: &HostResult)
    ensures
        final(out)@ == old(out)@ + host_head(*h),
{
    push_str(out, "rnmap scan report for ");
    let ghost a = out@;
    match &h.hostname {
        Some(name) => {
            push_str(out, name.as_str());
            push_str(out, " (");
            push_str(out, h.address.to_string().as_str());
            push_str(out, ")");
        },
        None => {
            push_str(out, h.address.to_string().as_str());
        },
    }
    assert(out@ =~= a + host_display(*h));
    out.push('\n');
    push_str(out, "Host is ");
    push_str(out, h.state.as_str());
    push_str(out, " (");
    push_str(out, h.reason.as_str());
    push_str(out, ")");
    out.push('\n');
    assert(out@ =~= old(out)@ + host_head(*h));
}

fn push_host_body(out: &mut Vec<char>, h: &HostResult, only_open: bool)
    ensures
        final(out)@ == old(out)@ + host_body(*h, only_open),
{
    let mut table: Vec<char> = Vec::new();
    let n = push_port_lines(&mut table, &h.ports, only_open);
    assert(table@ =~= port_lines(h.ports@, only_open));
    if n == 0 {
        push_str(out, "(no ports ");
        if only_open {
            push_str(out, "open");
        } else {
            push_str(out, "scanned");
        }
        push_str(out, ")");
        out.push('\n');
    } else {
        push_str(out, "PORT      STATE        SERVICE         VERSION");
        out.push('\n');
        push_all(out, &table);
    }
    assert(out@ =~= old(out)@ + host_body(*h, only_open));
}

fn push_host_block(out: &mut Vec<char>, h: &HostResult, only_open: bool)
    ensures
        final(out)@ == old(out)@ + host_block(*h, only_open),
{
    push_host_head(out, h);
    if h.state != HostState::Up {
        out.push('\n');
        assert(out@ =~= old(out)@ + host_block(*h, only_open));
        return;
    }
    push_host_body(out, h, only_open);
    out.push('\n');
    assert(out@ =~= old(out)@ + host_block(*h, only_open));
}

fn push_host_blocks(out: &mut Vec<char>, hosts: &Vec<HostResult>, only_open: bool)
    ensures
        final(out)@ == old(out)@ + host_blocks(hosts@, only_open),
{
    let mut i: usize = 0;
    while i < hosts.len()
        invariant
            i <= hosts.len(),
            out@ == old(out)@ + host_blocks(hosts@.take(i as int), only_open),
        decreases hosts.len() - i,
    {
        assert(hosts@.take(i + 1).drop_last() =~= hosts@.take(i as int));
        push_host_block(out, &hosts[i], only_open);
        i = i + 1;
        assert(out@ =~= old(out)@ + host_blocks(hosts@.take(i as int), only_open));
    }
    assert(hosts@.take(hosts.len() as int) =~= hosts@);
}

fn push_plural(out: &mut Vec<char>, n: usize)
    ensures
        final(out)@ == old(out)@ + plural(n as nat),
{
    if n != 1 {
        push_str(out, "s");
    } else {
        assert(out@ =~= old(out)@ + plural(n as nat));
    }
}

/// The report as text, given the text of its start time and of the elapsed
/// seconds (`{:.2}`).
pub fn render_text(r: &ScanReport, only_open: bool, started: &str, elapsed: &str) -> (s: String)
    requires
        open_ports_of_hosts(r.hosts@) <= usize::MAX,
    ensures
        s@ == normal_text(*r, only_open, started@, elapsed@),
{
    let mut out: Vec<char> = Vec::new();
    push_str(&mut out, "# ");
    push_str(&mut out, r.scanner.as_str());
    out.push(' ');
    push_str(&mut out, r.version.as_str());
    push_str(&mut out, " scan initiated ");
    push_str(&mut out, started);
    out.push('\n');
    push_str(&mut out, "# args: ");
    push_joined(&mut out, r.args.as_slice());
    out.push('\n');
    out.push('\n');
    push_host_blocks(&mut out, &r.hosts, only_open);
    let hc = r.host_count();
    let up = r.up_count();
    let open = r.open_port_count();
    push_str(&mut out, "# rnmap done: ");
    push_dec(&mut out, hc as u64);
    push_str(&mut out, " host");
    push_plural(&mut out, hc);
    push_str(&mut out, " scanned, ");
    push_dec(&mut out, up as u64);
    push_str(&mut out, " up, ");
    push_dec(&mut out, open as u64);
    push_str(&mut out, " open port");
    push_plural(&mut out, open);
    push_str(&mut out, " in ");
    push_str(&mut out, elapsed);
    push_str(&mut out, "s");
    out.push('\n');
    assert(out@ =~= normal_text(*r, only_open, started@, elapsed@));
    crate::text::string_of(&out)
}

/// The report as text, with its start time written by chrono; `None` when
/// chrono cannot represent the start time.
pub fn render(r: &ScanReport, only_open: bool, elapsed: &str) -> (s: Option<String>)
    requires
        open_ports_of_hosts(r.hosts@) <= usize::MAX,
    ensures
        match utc_format_of(r.started_at.secs, r.started_at.nanos, report_time_pattern()) {
            Some(t) => s matches Some(text) && text@ == normal_text(*r, only_open, t, elapsed@),
            None => s is None,
        },
{
    let started = format_utc(r.started_at, "%Y-%m-%d %H:%M UTC");
    match started {
        Some(t) => Some(render_text(r, only_open, t.as_str(), elapsed)),
        None => None,
    }
}

} // verus!
