//! Subset of Nmap's XML schema. Compatible with most nmap-XML parsers
//! (e.g. `python-libnmap`) for the elements we emit.
use crate::addr::{ip_text, IpAddr};
use crate::result::{
    host_state_text, port_state_text, protocol_text, up_hosts, HostResult, PortResult, PortState,
    ScanReport, ServiceInfo,
};
use crate::text::{
    chars_of, contains_seq, dec, join_space, push_dec, push_joined, push_sdec, push_str, sdec,
    string_of, strings_text,
};
use vstd::prelude::*;

verus! {

/// The XML escape of one character.
pub open spec fn escape_char(c: char) -> Seq<char> {
    if c == '&' {
        "&amp;"@
    } else if c == '<' {
        "&lt;"@
    } else if c == '>' {
        "&gt;"@
    } else if c == '"' {
        "&quot;"@
    } else if c == '\'' {
        "&apos;"@
    } else {
        seq![c]
    }
}

/// `s` with `&`, `<`, `>`, `"` and `'` replaced by their entities.
pub open spec fn xml_escape(s: Seq<char>) -> Seq<char>
    decreases s.len(),
{
    if s.len() == 0 {
        Seq::empty()
    } else {
        xml_escape(s.drop_last()) + escape_char(s.last())
    }
}

fn push_escaped(out: &mut Vec<char>, s: &str)
    ensures
        final(out)@ == old(out)@ + xml_escape(s@),
{
    let v = chars_of(s);
    let mut i: usize = 0;
    while i < v.len()
        invariant
            i <= v.len(),
            v@ == s@,
            out@ == old(out)@ + xml_escape(v@.take(i as int)),
        decreases v.len() - i,
    {
        assert(v@.take(i + 1).drop_last() =~= v@.take(i as int));
        let c = v[i];
        let ghost before = out@;
        if c == '&' {
            push_str(out, "&amp;");
        } else if c == '<' {
            push_str(out, "&lt;");
        } else if c == '>' {
            push_str(out, "&gt;");
        } else if c == '"' {
            push_str(out, "&quot;");
        } else if c == '\'' {
            push_str(out, "&apos;");
        } else {
            out.push(c);
        }
        assert(out@ =~= before + escape_char(c));
        i = i + 1;
        assert(out@ =~= old(out)@ + xml_escape(v@.take(i as int)));
    }
    assert(v@.take(v.len() as int) =~= v@);
}

/// XML-escapes text for an attribute value.
pub fn x(s: &str) -> (r: String)
    ensures
        r@ == xml_escape(s@),
{
    let mut out: Vec<char> = Vec::new();
    push_escaped(&mut out, s);
    assert(out@ =~= xml_escape(s@));
    string_of(&out)
}

/// An escaped text holds no markup character: no `<`, `>`, `"` or `'`.
pub proof fn law_escape_has_no_markup(s: Seq<char>)
    ensures
        forall|i: int|
            0 <= i < xml_escape(s).len() ==> xml_escape(s)[i] != '<' && xml_escape(s)[i] != '>'
                && xml_escape(s)[i] != '"' && xml_escape(s)[i] != '\'',
    decreases s.len(),
{
    if s.len() > 0 {
        law_escape_has_no_markup(s.drop_last());
        reveal_strlit("&amp;");
        reveal_strlit("&lt;");
        reveal_strlit("&gt;");
        reveal_strlit("&quot;");
        reveal_strlit("&apos;");
        let a = xml_escape(s.drop_last());
        let b = escape_char(s.last());
        assert forall|i: int| 0 <= i < (a + b).len() implies (a + b)[i] != '<' && (a + b)[i]
            != '>' && (a + b)[i] != '"' && (a + b)[i] != '\'' by {
            if i >= a.len() {
                assert((a + b)[i] == b[i - a.len()]);
            }
        }
    }
}

/// Text without markup characters or `&` is left as it is.
pub proof fn law_escape_keeps_plain_text(s: Seq<char>)
    requires
        forall|i: int|
            0 <= i < s.len() ==> s[i] != '&' && s[i] != '<' && s[i] != '>' && s[i] != '"' && s[i]
                != '\'',
    ensures
        xml_escape(s) == s,
    decreases s.len(),
{
    if s.len() > 0 {
        law_escape_keeps_plain_text(s.drop_last());
        assert(s.drop_last() + seq![s.last()] =~= s);
    }
}

/// The `<service .../>` element's attributes.
pub open spec fn service_attrs(svc: ServiceInfo) -> Seq<char> {
    " name=\""@ + xml_escape(svc.name@) + "\""@ + match svc.product {
        Some(p) => " product=\""@ + xml_escape(p@) + "\""@,
        None => Seq::empty(),
    } + match svc.version {
        Some(v) => " version=\""@ + xml_escape(v@) + "\""@,
        None => Seq::empty(),
    }
}

/// A service with a product always carries the product attribute, whatever
/// its version: ` product="…"` with the escaped product follows the name
/// attribute directly.
pub proof fn law_service_product_attribute(svc: ServiceInfo)
    ensures
        svc.product matches Some(p) ==> ({
            let name_attr = " name=\""@ + xml_escape(svc.name@) + "\""@;
            let product_attr = " product=\""@ + xml_escape(p@) + "\""@;
            service_attrs(svc).subrange(name_attr.len() as int, (name_attr.len() + product_attr.len()) as int)
                == product_attr
        }),
        svc.product matches Some(p) ==> contains_seq(
            service_attrs(svc),
            " product=\""@ + xml_escape(p@) + "\""@,
        ),
{
    if let Some(p) = svc.product {
        let name_attr = " name=\""@ + xml_escape(svc.name@) + "\""@;
        let product_attr = " product=\""@ + xml_escape(p@) + "\""@;
        let version_attr = match svc.version {
            Some(v) => " version=\""@ + xml_escape(v@) + "\""@,
            None => Seq::empty(),
        };
        assert(service_attrs(svc) == name_attr + product_attr + version_attr);
        assert(service_attrs(svc).subrange(name_attr.len() as int, (name_attr.len()
            + product_attr.len()) as int) =~= product_attr);
    }
}

/// The `<port>` element of one port.
pub open spec fn port_element(p: PortResult) -> Seq<char> {
    "      <port protocol=\""@ + protocol_text(p.protocol) + "\" portid=\""@ + dec(p.port as nat)
        + "\">"@ + seq!['\n'] + "        <state state=\""@ + port_state_text(p.state)
        + "\" reason=\""@ + xml_escape(p.reason@) + "\"/>"@ + seq!['\n'] + match p.service {
        Some(svc) => "        <service"@ + service_attrs(svc) + "/>"@ + seq!['\n'],
        None => Seq::empty(),
    } + "      </port>"@ + seq!['\n']
}

/// The `<port>` elements of the listed ports.
pub open spec fn port_elements(ports: Seq<PortResult>, only_open: bool) -> Seq<char>
    decreases ports.len(),
{
    if ports.len() == 0 {
        Seq::empty()
    } else {
        port_elements(ports.drop_last(), only_open) + if only_open && ports.last().state
            != PortState::Open {
            Seq::empty()
        } else {
            port_element(ports.last())
        }
    }
}

pub open spec fn addr_type(ip: IpAddr) -> Seq<char> {
    match ip {
        IpAddr::V4(_) => "ipv4"@,
        IpAddr::V6(_) => "ipv6"@,
    }
}

/// The opening of a `<host>` element: status and address.
pub open spec fn host_open(h: HostResult) -> Seq<char> {
    "  <host>"@ + seq!['\n'] + "    <status state=\""@ + host_state_text(h.state)
        + "\" reason=\""@ + xml_escape(h.reason@) + "\"/>"@ + seq!['\n'] + "    <address addr=\""@
        + ip_text(h.address) + "\" addrtype=\""@ + addr_type(h.address) + "\"/>"@ + seq!['\n']
}

/// The `<hostnames>` element, when the host has a name.
pub open spec fn hostnames_element(h: HostResult) -> Seq<char> {
    match h.hostname {
        Some(n) => "    <hostnames>"@ + seq!['\n'] + "      <hostname name=\""@ + xml_escape(n@)
            + "\" type=\"user\"/>"@ + seq!['\n'] + "    </hostnames>"@ + seq!['\n'],
        None => Seq::empty(),
    }
}

/// The `<ports>` element and the closing of the `<host>` element.
pub open spec fn host_close(h: HostResult, only_open: bool) -> Seq<char> {
    "    <ports>"@ + seq!['\n'] + port_elements(h.ports@, only_open) + "    </ports>"@ + seq!['\n']
        + "  </host>"@ + seq!['\n']
}

/// The `<host>` element of one host.
pub open spec fn host_element(h: HostResult, only_open: bool) -> Seq<char> {
    host_open(h) + hostnames_element(h) + host_close(h, only_open)
}

pub open spec fn host_elements(hosts: Seq<HostResult>, only_open: bool) -> Seq<char>
    decreases hosts.len(),
{
    if hosts.len() == 0 {
        Seq::empty()
    } else {
        host_elements(hosts.drop_last(), only_open) + host_element(hosts.last(), only_open)
    }
}

/// The whole XML document, given the text of the elapsed seconds (`{:.3}`).
pub open spec fn xml_text(r: ScanReport, only_open: bool, elapsed: Seq<char>) -> Seq<char> {
    "<?xml version=\"1.0\" encoding=\"UTF-8\"?>"@ + seq!['\n'] + "<rnmaprun scanner=\""@
        + xml_escape(r.scanner@) + "\" version=\""@ + xml_escape(r.version@) + "\" args=\""@
        + xml_escape(join_space(strings_text(r.args@))) + "\" start=\""@ + sdec(
        r.started_at.secs as int,
    ) + "\">"@ + seq!['\n'] + host_elements(r.hosts@, only_open)
        + "  <runstats><finished time=\""@ + sdec(r.ended_at.secs as int) + "\" elapsed=\""@
        + elapsed + "\"/><hosts up=\""@ + dec(up_hosts(r.hosts@)) + "\" total=\""@ + dec(
        r.hosts@.len(),
    ) + "\"/></runstats>"@ + seq!['\n'] + "</rnmaprun>"@ + seq!['\n']
}

fn push_service(out: &mut Vec<char>, svc: &ServiceInfo)
    ensures
        final(out)@ == old(out)@ + "        <service"@ + service_attrs(*svc) + "/>"@ + seq!['\n'],
{
    push_str(out, "        <service");
    let ghost a = out@;
    push_str(out, " name=\"");
    push_escaped(out, svc.name.as_str());
    push_str(out, "\"");
    let ghost b = out@;
    match &svc.product {
        Some(p) => {
            push_str(out, " product=\"");
            push_escaped(out, p.as_str());
            push_str(out, "\"");
        },
        None => {},
    }
    let ghost c = out@;
    match &svc.version {
        Some(v) => {
            push_str(out, " version=\"");
            push_escaped(out, v.as_str());
            push_str(out, "\"");
        },
        None => {},
    }
    assert(out@ =~= a + service_attrs(*svc));
    push_str(out, "/>");
    out.push('\n');
    assert(out@ =~= old(out)@ + "        <service"@ + service_attrs(*svc) + "/>"@ + seq!['\n']);
}

fn push_port_element(out: &mut Vec<char>, p: &PortResult)
    ensures
        final(out)@ == old(out)@ + port_element(*p),
{
    push_str(out, "      <port protocol=\"");
    push_str(out, p.protocol.as_str());
    push_str(out, "\" portid=\"");
    push_dec(out, p.port as u64);
    push_str(out, "\">");
    out.push('\n');
    push_str(out, "        <state state=\"");
    push_str(out, p.state.as_str());
    push_str(out, "\" reason=\"");
    push_escaped(out, p.reason.as_str());
    push_str(out, "\"/>");
    out.push('\n');
    let ghost mid = out@;
    match &p.service {
        Some(svc) => push_service(out, svc),
        None => {},
    }
    let ghost after = out@;
    push_str(out, "      </port>");
    out.push('\n');
    assert(out@ =~= old(out)@ + port_element(*p));
}

fn push_port_elements(out: &mut Vec<char>, ports: &Vec<PortResult>, only_open: bool)
    ensures
        final(out)@ == old(out)@ + port_elements(ports@, only_open),
{
    let mut i: usize = 0;
    while i < ports.len()
        invariant
            i <= ports.len(),
            out@ == old(out)@ + port_elements(ports@.take(i as int), only_open),
        decreases ports.len() - i,
    {
        assert(ports@.take(i + 1).drop_last() =~= ports@.take(i as int));
        if !(only_open && ports[i].state != PortState::Open) {
            push_port_element(out, &ports[i]);
        }
        i = i + 1;
        assert(out@ =~= old(out)@ + port_elements(ports@.take(i as int), only_open));
    }
    assert(ports@.take(ports.len() as int) =~= ports@);
}

fn push_host_head(out: &mut Vec<char>, h: &HostResult)
    ensures
        final(out)@ == old(out)@ + host_open(*h),
{
    push_str(out, "  <host>");
    out.push('\n');
    push_str(out, "    <status state=\"");
    push_str(out, h.state.as_str());
    push_str(out, "\" reason=\"");
    push_escaped(out, h.reason.as_str());
    push_str(out, "\"/>");
    out.push('\n');
    push_str(out, "    <address addr=\"");
    push_str(out, h.address.to_string().as_str());
    push_str(out, "\" addrtype=\"");
    if h.address.is_ipv4() {
        push_str(out, "ipv4");
    } else {
        push_str(out, "ipv6");
    }
    push_str(out, "\"/>");
    out.push('\n');
    assert(out@ =~= old(out)@ + host_open(*h));
}

fn push_hostnames(out: &mut Vec<char>, h: &HostResult)
    ensures
        final(out)@ == old(out)@ + hostnames_element(*h),
{
    match &h.hostname {
        Some(n) => {
            push_str(out, "    <hostnames>");
            out.push('\n');
            push_str(out, "      <hostname name=\"");
            push_escaped(out, n.as_str());
            push_str(out, "\" type=\"user\"/>");
            out.push('\n');
            push_str(out, "    </hostnames>");
            out.push('\n');
        },
        None => {},
    }
    assert(out@ =~= old(out)@ + hostnames_element(*h));
}

fn push_host_close(out: &mut Vec<char>, h: &HostResult, only_open: bool)
    ensures
        final(out)@ == old(out)@ + host_close(*h, only_open),
{
    push_str(out, "    <ports>");
    out.push('\n');
    push_port_elements(out, &h.ports, only_open);
    push_str(out, "    </ports>");
    out.push('\n');
    push_str(out, "  </host>");
    out.push('\n');
    assert(out@ =~= old(out)@ + host_close(*h, only_open));
}

fn push_host_element(out: &mut Vec<char>, h: &HostResult, only_open: bool)
    ensures
        final(out)@ == old(out)@ + host_element(*h, only_open),
{
    push_host_head(out, h);
    push_hostnames(out, h);
    push_host_close(out, h, only_open);
    assert(out@ =~= old(out)@ + host_element(*h, only_open));
}

fn push_host_elements(out: &mut Vec<char>, hosts: &Vec<HostResult>, only_open: bool)
    ensures
        final(out)@ == old(out)@ + host_elements(hosts@, only_open),
{
    let mut i: usize = 0;
    while i < hosts.len()
        invariant
            i <= hosts.len(),
            out@ == old(out)@ + host_elements(hosts@.take(i as int), only_open),
        decreases hosts.len() - i,
    {
        assert(hosts@.take(i + 1).drop_last() =~= hosts@.take(i as int));
        push_host_element(out, &hosts[i], only_open);
        i = i + 1;
        assert(out@ =~= old(out)@ + host_elements(hosts@.take(i as int), only_open));
    }
    assert(hosts@.take(hosts.len() as int) =~= hosts@);
}

/// The report as an XML document, given the text of the elapsed seconds.
pub fn render(r: &ScanReport, only_open: bool, elapsed: &str) -> (s: String)
    ensures
        s@ == xml_text(*r, only_open, elapsed@),
{
    let mut out: Vec<char> = Vec::new();
    push_str(&mut out, "<?xml version=\"1.0\" encoding=\"UTF-8\"?>");
    out.push('\n');
    push_str(&mut out, "<rnmaprun scanner=\"");
    push_escaped(&mut out, r.scanner.as_str());
    push_str(&mut out, "\" version=\"");
    push_escaped(&mut out, r.version.as_str());
    push_str(&mut out, "\" args=\"");
    let mut joined: Vec<char> = Vec::new();
    push_joined(&mut joined, r.args.as_slice());
    let js = string_of(&joined);
    push_escaped(&mut out, js.as_str());
    push_str(&mut out, "\" start=\"");
    push_sdec(&mut out, r.started_at.secs);
    push_str(&mut out, "\">");
    out.push('\n');
    let ghost head = out@;
    push_host_elements(&mut out, &r.hosts, only_open);
    let ghost body = out@;
    push_str(&mut out, "  <runstats><finished time=\"");
    push_sdec(&mut out, r.ended_at.secs);
    push_str(&mut out, "\" elapsed=\"");
    push_str(&mut out, elapsed);
    push_str(&mut out, "\"/><hosts up=\"");
    let up = r.up_count();
    push_dec(&mut out, up as u64);
    push_str(&mut out, "\" total=\"");
    let total = r.host_count();
    push_dec(&mut out, total as u64);
    push_str(&mut out, "\"/></runstats>");
    out.push('\n');
    push_str(&mut out, "</rnmaprun>");
    out.push('\n');
    assert(joined@ =~= join_space(strings_text(r.args@)));
    assert(out@ =~= xml_text(*r, only_open, elapsed@));
    string_of(&out)
}

} // verus!
