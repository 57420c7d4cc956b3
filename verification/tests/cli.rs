use rnmap_core::cli::{
    discovery_plan, host_is_scanned, syn_applies, syn_failure_notice, wants_service, DiscoveryPlan,
};
use rnmap_core::error::Error;
use rnmap_core::result::{HostState, PortState};
use rnmap_core::addr::{IpAddr, Ipv4Addr, Ipv6Addr};
use rnmap_core::cli::{
    cuts_inside_char, default_ping_ports, hostname_source, rewrite_nmap_args, semaphore_permits, with_overrides,
    HostnameSource,
};
use rnmap_core::timing::{TimeSpan, Timing};

fn strings(v: &[&str]) -> Vec<String> {
    v.iter().map(|s| s.to_string()).collect()
}

#[test]
fn rewrites_compound_short_flags() {
    let out = rewrite_nmap_args(strings(&[
        "rnmap", "-Pn", "-sV", "-PS22,80", "-oA", "scan", "-p", "22", "--open", "-T4", "-v",
    ]));
    assert_eq!(
        out,
        strings(&[
            "rnmap", "--Pn", "--sV", "--PS", "22,80", "--oA", "scan", "-p", "22", "--open", "-T4",
            "-v",
        ])
    );
}

#[test]
fn leaves_other_arguments_alone() {
    let input = strings(&["--Pn", "-Px", "-n", "-", "--", "-sZ", "10.0.0.1", "-Tn", "-é"]);
    assert_eq!(rewrite_nmap_args(input.clone()), input);
    assert_eq!(rewrite_nmap_args(vec![]), Vec::<String>::new());
}

#[test]
fn flag_with_glued_value_keeps_the_rest_whole() {
    assert_eq!(rewrite_nmap_args(strings(&["-oNfile.txt"])), strings(&["--oN", "file.txt"]));
    assert_eq!(rewrite_nmap_args(strings(&["-sSé"])), strings(&["--sS", "é"]));
}

#[test]
fn display_names() {
    let lo = IpAddr::V4(Ipv4Addr::new(127, 0, 0, 1));
    let other = IpAddr::V4(Ipv4Addr::new(10, 0, 0, 1));
    match hostname_source("router.lan", &other, true) {
        HostnameSource::Known(n) => assert_eq!(n, "router.lan"),
        _ => panic!("the given name is kept"),
    }
    match hostname_source("127.0.0.1", &lo, false) {
        HostnameSource::Known(n) => assert_eq!(n, "localhost"),
        _ => panic!("loopback is localhost"),
    }
    assert!(matches!(hostname_source("10.0.0.1", &other, true), HostnameSource::ReverseLookup));
    let v6 = IpAddr::V6(Ipv6Addr::new([0, 0, 0, 0, 0, 0, 0, 1]));
    assert!(matches!(hostname_source("::1", &v6, true), HostnameSource::ReverseLookup));
    // with -n there is no lookup and no name
    assert!(matches!(hostname_source("10.0.0.1", &other, false), HostnameSource::NoName));
    // a label that spells the address differently is a name of its own
    match hostname_source("0:0::1", &v6, true) {
        HostnameSource::Known(n) => assert_eq!(n, "0:0::1"),
        _ => panic!("label differs from the address text"),
    }
}

#[test]
fn arguments_that_cannot_be_rewritten() {
    assert!(cuts_inside_char("-pé"));
    assert!(cuts_inside_char("-€x"));
    assert!(!cuts_inside_char("-é"));
    assert!(!cuts_inside_char("-éx"));
    assert!(!cuts_inside_char("-sSé"));
    assert!(!cuts_inside_char("--pé"));
    assert!(!cuts_inside_char("p€"));
    assert!(!cuts_inside_char("-"));
}

#[test]
fn timing_overrides() {
    let base = Timing::new(3);
    let t = with_overrides(base, Some(7), None, Some(30));
    assert_eq!(t.level, 3);
    assert_eq!(t.max_parallel, 7);
    assert_eq!(t.max_retries, 2);
    assert_eq!(t.host_timeout, TimeSpan { secs: 30, nanos: 0 });
    assert_eq!(t.connect_timeout, base.connect_timeout);
    let u = with_overrides(base, None, Some(0), None);
    assert_eq!(u.max_parallel, 100);
    assert_eq!(u.max_retries, 0);
    assert_eq!(u.host_timeout, base.host_timeout);
}

#[test]
fn ping_ports_and_permits() {
    assert_eq!(default_ping_ports(), vec![80, 443, 22, 3389]);
    assert_eq!(semaphore_permits(0), 1);
    assert_eq!(semaphore_permits(1), 1);
    assert_eq!(semaphore_permits(300), 300);
}

#[test]
fn per_host_decisions() {
    assert!(matches!(discovery_plan(true, true, Some("x")), Ok(DiscoveryPlan::Skip)));
    assert!(matches!(discovery_plan(false, true, Some("x")), Ok(DiscoveryPlan::Icmp)));
    match discovery_plan(false, false, None) {
        Ok(DiscoveryPlan::TcpPing(v)) => assert_eq!(v, vec![80, 443, 22, 3389]),
        _ => panic!("default TCP ping"),
    }
    match discovery_plan(false, false, Some("443,22")) {
        Ok(DiscoveryPlan::TcpPing(v)) => assert_eq!(v, vec![22, 443]),
        _ => panic!("TCP ping on the given ports"),
    }
    match discovery_plan(false, false, Some("0")) {
        Err(e) => assert_eq!(e, Error::Ports("0".to_string(), "port 0 is not valid".to_string())),
        _ => panic!("bad -PS spec"),
    }
    assert!(host_is_scanned(HostState::Up, false));
    assert!(host_is_scanned(HostState::Down, true));
    assert!(!host_is_scanned(HostState::Unknown, false));
    let v4 = IpAddr::V4(Ipv4Addr::new(1, 2, 3, 4));
    let v6 = IpAddr::V6(Ipv6Addr::new([0, 0, 0, 0, 0, 0, 0, 1]));
    assert!(syn_applies(true, &v4));
    assert!(!syn_applies(true, &v6));
    assert!(!syn_applies(false, &v4));
    assert!(wants_service(true, PortState::Open));
    assert!(!wants_service(true, PortState::Closed));
    assert!(!wants_service(false, PortState::Open));
    assert!(syn_failure_notice(&Error::Privilege("x".to_string())));
    assert!(!syn_failure_notice(&Error::Io("x".to_string())));
}
