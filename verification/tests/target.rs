use rnmap_core::addr::{IpAddr, Ipv4Addr, Ipv6Addr};
use rnmap_core::error::Error;
use rnmap_core::ports::PortSpec;
use rnmap_core::target::{expand_one, lookup_name, resolve_lookup, Expansion, TargetSpec};

fn one(input: &str) -> Vec<String> {
    vec![input.to_string()]
}

fn labels(t: &TargetSpec) -> Vec<String> {
    t.addrs.iter().map(|r| r.label.clone()).collect()
}

#[test]
fn ipv4_literal() {
    let t = TargetSpec::parse_many(&one("1.2.3.4"), false, &[None]).unwrap();
    assert_eq!(t.addrs.len(), 1);
    assert_eq!(t.addrs[0].ip, IpAddr::V4(Ipv4Addr::new(1, 2, 3, 4)));
}

#[test]
fn ipv4_cidr_30() {
    let t = TargetSpec::parse_many(&one("10.0.0.0/30"), false, &[None]).unwrap();
    // /30 has 4 addrs but hosts() excludes network and broadcast → 2
    assert_eq!(t.addrs.len(), 2);
}

#[test]
fn ipv4_range() {
    let t = TargetSpec::parse_many(&one("10.0.0.5-7"), false, &[None]).unwrap();
    let ips: Vec<_> = t.addrs.iter().map(|r| r.ip.to_string()).collect();
    assert_eq!(ips, vec!["10.0.0.5", "10.0.0.6", "10.0.0.7"]);
}

#[test]
fn rejects_hostname_without_dns() {
    let r = TargetSpec::parse_many(&one("example.com"), false, &[None]);
    assert!(r.is_err());
}

#[test]
fn rejects_bad_range() {
    let r = TargetSpec::parse_many(&one("10.0.0.50-5"), false, &[None]);
    assert!(r.is_err());
}

#[test]
fn cidr_hosts_and_labels() {
    let t = TargetSpec::parse_many(&one(" 10.0.0.7/30 "), false, &[None]).unwrap();
    assert_eq!(labels(&t), vec!["10.0.0.5", "10.0.0.6"]);
    let t = TargetSpec::parse_many(&one("10.0.0.5/32"), false, &[None]).unwrap();
    assert_eq!(labels(&t), vec!["10.0.0.5"]);
    let t = TargetSpec::parse_many(&one("10.0.0.4/31"), false, &[None]).unwrap();
    assert_eq!(labels(&t), vec!["10.0.0.4", "10.0.0.5"]);
    let t = TargetSpec::parse_many(&one("192.168.1.0/24"), false, &[None]).unwrap();
    assert_eq!(t.addrs.len(), 254);
    assert_eq!(t.addrs[0].label, "192.168.1.1");
    assert_eq!(t.addrs[253].label, "192.168.1.254");
    let t = TargetSpec::parse_many(&one("fe80::/126"), false, &[None]).unwrap();
    assert_eq!(labels(&t), vec!["fe80::", "fe80::1", "fe80::2", "fe80::3"]);
    assert_eq!(
        t.addrs[1].ip,
        IpAddr::V6(Ipv6Addr::new([0xfe80, 0, 0, 0, 0, 0, 0, 1]))
    );
}

#[test]
fn target_errors() {
    let e = TargetSpec::parse_many(&one("10.0.0.0/33"), false, &[None]).unwrap_err();
    assert_eq!(
        e,
        Error::Target("10.0.0.0/33".to_string(), "bad CIDR: invalid IP address syntax".to_string())
    );
    let e = TargetSpec::parse_many(&one(" example.com "), false, &[None]).unwrap_err();
    assert_eq!(
        e,
        Error::Target(
            "example.com".to_string(),
            "looks like a hostname but DNS resolution is disabled (-n)".to_string()
        )
    );
    let e = TargetSpec::parse_many(&one("10.0.0.50-5"), false, &[None]).unwrap_err();
    assert_eq!(
        e,
        Error::Target("10.0.0.50-5".to_string(), "range high 5 < low 50".to_string())
    );
    let e = TargetSpec::parse_many(&one("10.0.0.1-300"), false, &[None]).unwrap_err();
    assert_eq!(
        e,
        Error::Target(
            "10.0.0.1-300".to_string(),
            "range high `300`: number too large to fit in target type".to_string()
        )
    );
    let e = TargetSpec::parse_many(&one("10.0.0.1-"), false, &[None]).unwrap_err();
    assert_eq!(
        e,
        Error::Target(
            "10.0.0.1-".to_string(),
            "range high ``: cannot parse integer from empty string".to_string()
        )
    );
    let inputs = vec!["  ".to_string(), "".to_string()];
    let e = TargetSpec::parse_many(&inputs, false, &[None, None]).unwrap_err();
    assert_eq!(e, Error::Target("   ".to_string(), "no targets resolved".to_string()));
}

#[test]
fn several_inputs_keep_order() {
    let inputs = vec!["10.0.0.9".to_string(), "".to_string(), "10.0.0.1-2".to_string(), "::1".to_string()];
    let t = TargetSpec::parse_many(&inputs, false, &[None, None, None, None]).unwrap();
    assert_eq!(labels(&t), vec!["10.0.0.9", "10.0.0.1", "10.0.0.2", "::1"]);
    assert_eq!(t.inputs, inputs);
}

#[test]
fn the_first_bad_input_decides() {
    let inputs = vec!["10.0.0.1".to_string(), "bad..name".to_string(), "10.0.0.0/40".to_string()];
    let e = TargetSpec::parse_many(&inputs, false, &[None, None, None]).unwrap_err();
    assert!(matches!(e, Error::Target(ref g, _) if g == "bad..name"));
}

#[test]
fn hostnames_resolve_from_answers() {
    let v6 = IpAddr::V6(Ipv6Addr::new([0x2001, 0xdb8, 0, 0, 0, 0, 0, 1]));
    let v4 = IpAddr::V4(Ipv4Addr::new(93, 184, 216, 34));
    let inputs = vec!["example.com".to_string(), "10.0.0.1".to_string()];
    assert_eq!(lookup_name("example.com", true), Some("example.com".to_string()));
    assert_eq!(lookup_name("example.com", false), None);
    assert_eq!(lookup_name("10.0.0.1", true), None);
    let t = TargetSpec::parse_many(&inputs, true, &[Some(Ok(vec![v6, v4])), None]).unwrap();
    assert_eq!(t.addrs[0].label, "example.com");
    assert_eq!(t.addrs[0].ip, v4);
    assert_eq!(t.addrs[1].ip, IpAddr::V4(Ipv4Addr::new(10, 0, 0, 1)));
    // only IPv6 answers: the first one
    let t = TargetSpec::parse_many(&inputs, true, &[Some(Ok(vec![v6])), None]).unwrap();
    assert_eq!(t.addrs[0].ip, v6);
}

#[test]
fn failed_resolution_is_a_dns_error() {
    let inputs = one("nowhere.invalid");
    let e = TargetSpec::parse_many(&inputs, true, &[Some(Err("failed to lookup".to_string()))])
        .unwrap_err();
    assert_eq!(e, Error::Dns("nowhere.invalid".to_string(), "failed to lookup".to_string()));
    let e = TargetSpec::parse_many(&inputs, true, &[Some(Ok(vec![]))]).unwrap_err();
    assert_eq!(e, Error::Dns("nowhere.invalid".to_string(), "no addresses".to_string()));
    let e = resolve_lookup("h", &Ok(vec![])).unwrap_err();
    assert_eq!(e, Error::Dns("h".to_string(), "no addresses".to_string()));
}

#[test]
fn checked_parse_wants_every_answer() {
    let inputs = vec!["example.com".to_string()];
    assert!(TargetSpec::parse_many_checked(&inputs, true, &[None]).is_none());
    assert!(TargetSpec::parse_many_checked(&inputs, true, &[]).is_none());
    let r = TargetSpec::parse_many_checked(&inputs, false, &[None]).unwrap();
    assert!(r.is_err());
    let v4 = IpAddr::V4(Ipv4Addr::new(1, 1, 1, 1));
    let t = TargetSpec::parse_many_checked(&inputs, true, &[Some(Ok(vec![v4]))])
        .unwrap()
        .unwrap();
    assert_eq!(t.addrs[0].ip, v4);
}

#[test]
fn expand_one_shapes() {
    match expand_one("  ", false).unwrap() {
        Expansion::Hosts(v) => assert!(v.is_empty()),
        Expansion::Lookup(_) => panic!("empty input is no hostname"),
    }
    match expand_one("my-host.example.com", true).unwrap() {
        Expansion::Lookup(n) => assert_eq!(n, "my-host.example.com"),
        Expansion::Hosts(_) => panic!("a hostname needs resolving"),
    }
    match expand_one("1.2.3.x-5", true).unwrap() {
        Expansion::Lookup(n) => assert_eq!(n, "1.2.3.x-5"),
        Expansion::Hosts(_) => panic!("not a range"),
    }
}

#[test]
fn target_and_port_specs_compose() {
    let t = TargetSpec::parse_many(&one("127.0.0.1"), false, &[None]).unwrap();
    let p = PortSpec::parse("80,443").unwrap();
    assert_eq!(t.addrs.len(), 1);
    assert_eq!(p.ports, vec![80, 443]);
}
