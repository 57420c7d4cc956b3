use rnmap_core::error::Error;
use rnmap_core::ports::PortSpec;

#[test]
fn single() {
    assert_eq!(PortSpec::parse("22").unwrap().ports, vec![22]);
}

#[test]
fn range() {
    assert_eq!(PortSpec::parse("80-82").unwrap().ports, vec![80, 81, 82]);
}

#[test]
fn list() {
    assert_eq!(PortSpec::parse("22,80,443").unwrap().ports, vec![22, 80, 443]);
}

#[test]
fn mixed() {
    let p = PortSpec::parse("22,80-82,443").unwrap();
    assert_eq!(p.ports, vec![22, 80, 81, 82, 443]);
}

#[test]
fn dedup_sort() {
    let p = PortSpec::parse("443,22,80,22,80").unwrap();
    assert_eq!(p.ports, vec![22, 80, 443]);
}

#[test]
fn dash_all() {
    let p = PortSpec::parse("-").unwrap();
    assert_eq!(p.ports.len(), 65535);
    assert_eq!(p.ports[0], 1);
    assert_eq!(*p.ports.last().unwrap(), 65535);
}

#[test]
fn open_ranges() {
    let p = PortSpec::parse("-1024").unwrap();
    assert_eq!(p.ports.len(), 1024);
    assert_eq!(p.ports[0], 1);
    let p = PortSpec::parse("65500-").unwrap();
    assert_eq!(p.ports[0], 65500);
    assert_eq!(*p.ports.last().unwrap(), 65535);
}

#[test]
fn rejects_zero() {
    assert!(PortSpec::parse("0").is_err());
    assert!(PortSpec::parse("0-10").is_err());
}

#[test]
fn rejects_reverse() {
    assert!(PortSpec::parse("100-50").is_err());
}

#[test]
fn rejects_garbage() {
    assert!(PortSpec::parse("abc").is_err());
    assert!(PortSpec::parse("").is_err());
}

fn ports_error(spec: &str, why: &str) -> Error {
    Error::Ports(spec.to_string(), why.to_string())
}

#[test]
fn error_messages_name_the_spec_and_the_reason() {
    assert_eq!(PortSpec::parse("").unwrap_err(), ports_error("", "empty"));
    assert_eq!(PortSpec::parse("  ").unwrap_err(), ports_error("  ", "empty"));
    assert_eq!(PortSpec::parse("0").unwrap_err(), ports_error("0", "port 0 is not valid"));
    assert_eq!(PortSpec::parse("0-10").unwrap_err(), ports_error("0-10", "port 0 is not valid"));
    assert_eq!(PortSpec::parse("100-50").unwrap_err(), ports_error("100-50", "range 100 > 50"));
    assert_eq!(PortSpec::parse(",, ,").unwrap_err(), ports_error(",, ,", "no ports parsed"));
    assert_eq!(
        PortSpec::parse("abc").unwrap_err(),
        ports_error("abc", "invalid port `abc`: invalid digit found in string")
    );
    assert_eq!(
        PortSpec::parse("22,70000").unwrap_err(),
        ports_error("22,70000", "invalid port `70000`: number too large to fit in target type")
    );
    assert_eq!(
        PortSpec::parse("22,x-5").unwrap_err(),
        ports_error("22,x-5", "invalid port `x`: invalid digit found in string")
    );
}

#[test]
fn whitespace_and_empty_chunks_are_ignored() {
    let p = PortSpec::parse("  22 , ,80 - 81 ,").unwrap();
    assert_eq!(p.ports, vec![22, 80, 81]);
    assert_eq!(p.len(), 3);
    assert!(!p.is_empty());
}

#[test]
fn plus_sign_is_accepted_like_std() {
    // `u16::from_str` accepts a leading `+`.
    assert_eq!(PortSpec::parse("+22").unwrap().ports, vec![22]);
}

#[test]
fn overlapping_ranges_merge() {
    let p = PortSpec::parse("10-12,11-13,12").unwrap();
    assert_eq!(p.ports, vec![10, 11, 12, 13]);
}

#[test]
fn bare_dash_inside_a_list_is_everything() {
    let p = PortSpec::parse("5,-").unwrap();
    assert_eq!(p.ports.len(), 65535);
}
