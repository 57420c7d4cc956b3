use rnmap_core::addr::{IpAddr, Ipv4Addr, Ipv6Addr};
use rnmap_core::output::json::selected;
use rnmap_core::output::{normal, xml};
use rnmap_core::result::{
    HostResult, HostState, PortResult, PortState, Protocol, ScanReport, ServiceInfo, Timestamp,
};
use rnmap_core::timing::TimeSpan;

fn port(p: u16, state: PortState, reason: &str, svc: Option<ServiceInfo>) -> PortResult {
    PortResult {
        port: p,
        protocol: Protocol::Tcp,
        state,
        reason: reason.to_string(),
        service: svc,
        rtt_ms: Some(1),
    }
}

fn ssh() -> ServiceInfo {
    ServiceInfo {
        name: "ssh".to_string(),
        product: Some("OpenSSH".to_string()),
        version: Some("9.6".to_string()),
        banner: Some("SSH-2.0-OpenSSH_9.6".to_string()),
    }
}

fn ts(secs: i64) -> Timestamp {
    Timestamp { secs, nanos: 0 }
}

fn host(ip: IpAddr, name: Option<&str>, state: HostState, reason: &str, ports: Vec<PortResult>) -> HostResult {
    HostResult {
        address: ip,
        hostname: name.map(|n| n.to_string()),
        state,
        reason: reason.to_string(),
        ports,
        started_at: ts(1000),
        ended_at: ts(1008),
        elapsed: TimeSpan { secs: 8, nanos: 0 },
    }
}

fn report(hosts: Vec<HostResult>) -> ScanReport {
    ScanReport {
        scanner: "rnmap".to_string(),
        version: "0.1.0".to_string(),
        args: vec!["rnmap".to_string(), "-Pn".to_string(), "-p".to_string(), "22,80".to_string()],
        started_at: ts(1000),
        ended_at: ts(1008),
        elapsed: TimeSpan { secs: 8, nanos: 260_000_000 },
        hosts,
    }
}

fn localhost_report() -> ScanReport {
    report(vec![host(
        IpAddr::V4(Ipv4Addr::new(127, 0, 0, 1)),
        Some("localhost"),
        HostState::Up,
        "skipped",
        vec![
            port(22, PortState::Open, "syn-ack", Some(ssh())),
            port(80, PortState::Closed, "conn-refused", None),
        ],
    )])
}

#[test]
fn normal_text_all_ports() {
    let r = localhost_report();
    let s = normal::render_text(&r, false, "2026-04-29 10:36 UTC", "8.26");
    let expected = String::new()
        + "# rnmap 0.1.0 scan initiated 2026-04-29 10:36 UTC\n"
        + "# args: rnmap -Pn -p 22,80\n"
        + "\n"
        + "rnmap scan report for localhost (127.0.0.1)\n"
        + "Host is up (skipped)\n"
        + "PORT      STATE        SERVICE         VERSION\n"
        + "22/tcp    open         ssh             OpenSSH 9.6\n"
        + "80/tcp    closed       -               \n"
        + "\n"
        + "# rnmap done: 1 host scanned, 1 up, 1 open port in 8.26s\n";
    assert_eq!(s, expected);
}

#[test]
fn normal_text_only_open_and_down_hosts() {
    let r = report(vec![
        host(
            IpAddr::V4(Ipv4Addr::new(10, 0, 0, 9)),
            None,
            HostState::Down,
            "no-response",
            vec![],
        ),
        host(
            IpAddr::V4(Ipv4Addr::new(10, 0, 0, 1)),
            None,
            HostState::Up,
            "tcp-rst",
            vec![port(80, PortState::Closed, "conn-refused", None)],
        ),
        host(
            IpAddr::V6(Ipv6Addr::new([0, 0, 0, 0, 0, 0, 0, 1])),
            Some("v6"),
            HostState::Up,
            "skipped",
            vec![
                port(443, PortState::Open, "syn-ack", None),
                port(8443, PortState::Open, "syn-ack", None),
            ],
        ),
    ]);
    let s = normal::render_text(&r, true, "T", "0.00");
    let expected = String::new()
        + "# rnmap 0.1.0 scan initiated T\n"
        + "# args: rnmap -Pn -p 22,80\n"
        + "\n"
        + "rnmap scan report for 10.0.0.9\n"
        + "Host is down (no-response)\n"
        + "\n"
        + "rnmap scan report for 10.0.0.1\n"
        + "Host is up (tcp-rst)\n"
        + "(no ports open)\n"
        + "\n"
        + "rnmap scan report for v6 (::1)\n"
        + "Host is up (skipped)\n"
        + "PORT      STATE        SERVICE         VERSION\n"
        + "443/tcp   open         -               \n"
        + "8443/tcp  open         -               \n"
        + "\n"
        + "# rnmap done: 3 hosts scanned, 2 up, 2 open ports in 0.00s\n";
    assert_eq!(s, expected);
    assert_eq!(r.host_count(), 3);
    assert_eq!(r.up_count(), 2);
    assert_eq!(r.open_port_count(), 2);
}

#[test]
fn normal_text_no_ports_scanned() {
    let r = report(vec![host(
        IpAddr::V4(Ipv4Addr::new(10, 0, 0, 1)),
        None,
        HostState::Up,
        "skipped",
        vec![],
    )]);
    let s = normal::render_text(&r, false, "T", "1.50");
    assert!(s.contains("Host is up (skipped)\n(no ports scanned)\n\n"));
    assert!(s.ends_with("# rnmap done: 1 host scanned, 1 up, 0 open ports in 1.50s\n"));
}

#[test]
fn normal_render_formats_start_time() {
    let mut r = localhost_report();
    r.started_at = Timestamp { secs: 1_777_458_960, nanos: 0 };
    let s = normal::render(&r, false, "8.26").unwrap();
    assert!(s.starts_with("# rnmap 0.1.0 scan initiated 2026-04-29 10:36 UTC\n"));
    r.started_at = ts(0);
    let s = normal::render(&r, false, "8.26").unwrap();
    assert!(s.starts_with("# rnmap 0.1.0 scan initiated 1970-01-01 00:00 UTC\n"));
    // out of chrono's range
    r.started_at = Timestamp { secs: i64::MAX, nanos: 0 };
    assert!(normal::render(&r, false, "8.26").is_none());
}

#[test]
fn xml_document() {
    let r = localhost_report();
    let s = xml::render(&r, false, "8.260");
    let expected = String::new()
        + "<?xml version=\"1.0\" encoding=\"UTF-8\"?>\n"
        + "<rnmaprun scanner=\"rnmap\" version=\"0.1.0\" args=\"rnmap -Pn -p 22,80\" start=\"1000\">\n"
        + "  <host>\n"
        + "    <status state=\"up\" reason=\"skipped\"/>\n"
        + "    <address addr=\"127.0.0.1\" addrtype=\"ipv4\"/>\n"
        + "    <hostnames>\n"
        + "      <hostname name=\"localhost\" type=\"user\"/>\n"
        + "    </hostnames>\n"
        + "    <ports>\n"
        + "      <port protocol=\"tcp\" portid=\"22\">\n"
        + "        <state state=\"open\" reason=\"syn-ack\"/>\n"
        + "        <service name=\"ssh\" product=\"OpenSSH\" version=\"9.6\"/>\n"
        + "      </port>\n"
        + "      <port protocol=\"tcp\" portid=\"80\">\n"
        + "        <state state=\"closed\" reason=\"conn-refused\"/>\n"
        + "      </port>\n"
        + "    </ports>\n"
        + "  </host>\n"
        + "  <runstats><finished time=\"1008\" elapsed=\"8.260\"/><hosts up=\"1\" total=\"1\"/></runstats>\n"
        + "</rnmaprun>\n";
    assert_eq!(s, expected);
}

#[test]
fn xml_only_open_ipv6_and_escaping() {
    let mut r = report(vec![host(
        IpAddr::V6(Ipv6Addr::new([0x2001, 0xdb8, 0, 0, 0, 0, 0, 5])),
        None,
        HostState::Down,
        "a<b>&\"c'",
        vec![
            port(22, PortState::Filtered, "timeout", None),
            port(
                80,
                PortState::Open,
                "syn-ack",
                Some(ServiceInfo { name: "http".to_string(), product: None, version: None, banner: None }),
            ),
        ],
    )]);
    r.started_at = ts(-5);
    let s = xml::render(&r, true, "0.001");
    let expected = String::new()
        + "<?xml version=\"1.0\" encoding=\"UTF-8\"?>\n"
        + "<rnmaprun scanner=\"rnmap\" version=\"0.1.0\" args=\"rnmap -Pn -p 22,80\" start=\"-5\">\n"
        + "  <host>\n"
        + "    <status state=\"down\" reason=\"a&lt;b&gt;&amp;&quot;c&apos;\"/>\n"
        + "    <address addr=\"2001:db8::5\" addrtype=\"ipv6\"/>\n"
        + "    <ports>\n"
        + "      <port protocol=\"tcp\" portid=\"80\">\n"
        + "        <state state=\"open\" reason=\"syn-ack\"/>\n"
        + "        <service name=\"http\"/>\n"
        + "      </port>\n"
        + "    </ports>\n"
        + "  </host>\n"
        + "  <runstats><finished time=\"1008\" elapsed=\"0.001\"/><hosts up=\"0\" total=\"1\"/></runstats>\n"
        + "</rnmaprun>\n";
    assert_eq!(s, expected);
}

#[test]
fn xml_escape_rules() {
    assert_eq!(xml::x("a<b>&\"c'"), "a&lt;b&gt;&amp;&quot;c&apos;");
    assert_eq!(xml::x("&amp;"), "&amp;amp;");
    assert_eq!(xml::x("plain text"), "plain text");
    assert_eq!(xml::x(""), "");
}

#[test]
fn json_selection_keeps_only_open_ports() {
    let r = localhost_report();
    let all = selected(&r, false);
    assert_eq!(all.hosts[0].ports.len(), 2);
    let open = selected(&r, true);
    assert_eq!(open.hosts.len(), 1);
    assert_eq!(open.hosts[0].ports.len(), 1);
    assert_eq!(open.hosts[0].ports[0].port, 22);
    assert_eq!(open.hosts[0].ports[0].service.as_ref().unwrap().name, "ssh");
    assert_eq!(open.scanner, "rnmap");
    assert_eq!(open.args, r.args);
    // the given report is untouched
    assert_eq!(r.hosts[0].ports.len(), 2);
}

#[test]
fn state_words() {
    assert_eq!(PortState::Open.as_str(), "open");
    assert_eq!(PortState::Closed.as_str(), "closed");
    assert_eq!(PortState::Filtered.as_str(), "filtered");
    assert_eq!(PortState::Unfiltered.as_str(), "unfiltered");
    assert_eq!(Protocol::Tcp.as_str(), "tcp");
    assert_eq!(Protocol::Udp.as_str(), "udp");
    assert_eq!(HostState::Up.as_str(), "up");
    assert_eq!(HostState::Down.as_str(), "down");
    assert_eq!(HostState::Unknown.as_str(), "unknown");
}
