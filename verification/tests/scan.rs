use rnmap_core::result::{sort_by_port, PortState, Protocol};
use rnmap_core::scan::{tcp_result, ConnectAnswer, ConnectScan, ConnectStep};
use rnmap_core::timing::Timing;

/// Drives the retry loop with the given answers; returns the waits asked
/// for and the result.
fn drive(timing: &Timing, answers: Vec<ConnectAnswer>) -> (Vec<u64>, rnmap_core::result::PortResult) {
    let mut s = ConnectScan::new(8080, timing);
    let mut waits = Vec::new();
    for a in answers {
        match s.record(a) {
            ConnectStep::RetryAfter(ms) => waits.push(ms),
            ConnectStep::Done(r) => return (waits, r),
        }
    }
    panic!("the scan asked for more answers than given");
}

#[test]
fn connect_open_and_closed() {
    let t = Timing::new(4);
    let (w, r) = drive(&t, vec![ConnectAnswer::Connected(3)]);
    assert!(w.is_empty());
    assert_eq!(r.port, 8080);
    assert_eq!(r.protocol, Protocol::Tcp);
    assert_eq!(r.state, PortState::Open);
    assert_eq!(r.reason, "syn-ack");
    assert_eq!(r.rtt_ms, Some(3));
    assert!(r.service.is_none());
    let (_, r) = drive(&t, vec![ConnectAnswer::TimedOut, ConnectAnswer::Refused(9)]);
    assert_eq!(r.state, PortState::Closed);
    assert_eq!(r.reason, "conn-refused");
    assert_eq!(r.rtt_ms, Some(9));
}

#[test]
fn connect_retries_then_filtered() {
    // T3 allows two retries: three attempts in all, with growing waits.
    let t = Timing::new(3);
    let (w, r) = drive(
        &t,
        vec![
            ConnectAnswer::TimedOut,
            ConnectAnswer::Failed("Network is unreachable".to_string()),
            ConnectAnswer::TimedOut,
        ],
    );
    assert_eq!(w, vec![50, 100]);
    assert_eq!(r.state, PortState::Filtered);
    assert_eq!(r.reason, "timeout");
    assert_eq!(r.rtt_ms, None);
    let (w, r) = drive(
        &t,
        vec![
            ConnectAnswer::TimedOut,
            ConnectAnswer::TimedOut,
            ConnectAnswer::Failed("Host is down".to_string()),
        ],
    );
    assert_eq!(w, vec![50, 100]);
    assert_eq!(r.reason, "Host is down");
}

#[test]
fn no_retries_means_one_attempt() {
    let mut t = Timing::new(3);
    t.max_retries = 0;
    let (w, r) = drive(&t, vec![ConnectAnswer::TimedOut]);
    assert!(w.is_empty());
    assert_eq!(r.state, PortState::Filtered);
}

#[test]
fn tcp_result_fields() {
    let r = tcp_result(1, PortState::Unfiltered, "x".to_string(), None);
    assert_eq!(r.port, 1);
    assert_eq!(r.state, PortState::Unfiltered);
    assert_eq!(r.reason, "x");
}

#[test]
fn port_results_sorted_by_port() {
    let rs = vec![
        tcp_result(443, PortState::Open, "a".to_string(), None),
        tcp_result(22, PortState::Closed, "b".to_string(), None),
        tcp_result(80, PortState::Filtered, "c".to_string(), None),
        tcp_result(22, PortState::Open, "d".to_string(), None),
    ];
    let s = sort_by_port(&rs);
    let ports: Vec<u16> = s.iter().map(|p| p.port).collect();
    assert_eq!(ports, vec![22, 22, 80, 443]);
    let mut reasons: Vec<&str> = s.iter().map(|p| p.reason.as_str()).collect();
    reasons.sort();
    assert_eq!(reasons, vec!["a", "b", "c", "d"]);
    assert!(sort_by_port(&vec![]).is_empty());
}
