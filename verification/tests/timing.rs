use rnmap_core::timing::{TimeSpan, Timing};

#[test]
fn levels_increase_parallelism() {
    let p: Vec<_> = (0u8..=5).map(|l| Timing::new(l).max_parallel).collect();
    for w in p.windows(2) {
        assert!(w[1] > w[0], "parallelism should increase: {:?}", p);
    }
}

#[test]
fn levels_decrease_timeout() {
    let t: Vec<_> = (0u8..=5).map(|l| Timing::new(l).connect_timeout).collect();
    for w in t.windows(2) {
        assert!(w[1] <= w[0]);
    }
}

#[test]
fn template_values() {
    let t0 = Timing::new(0);
    assert_eq!(t0.level, 0);
    assert_eq!(t0.max_parallel, 1);
    assert_eq!(t0.connect_timeout, TimeSpan { secs: 15, nanos: 0 });
    assert_eq!(t0.read_timeout, TimeSpan { secs: 10, nanos: 0 });
    assert_eq!(t0.max_retries, 5);
    assert_eq!(t0.host_timeout, TimeSpan { secs: 0, nanos: 0 });

    let t4 = Timing::new(4);
    assert_eq!(t4.max_parallel, 300);
    assert_eq!(t4.connect_timeout, TimeSpan { secs: 1, nanos: 500_000_000 });
    assert_eq!(t4.read_timeout, TimeSpan { secs: 2, nanos: 0 });
    assert_eq!(t4.max_retries, 1);

    let t5 = Timing::new(5);
    assert_eq!(t5.max_parallel, 1000);
    assert_eq!(t5.connect_timeout, TimeSpan { secs: 0, nanos: 800_000_000 });
    assert_eq!(t5.host_timeout, TimeSpan { secs: 900, nanos: 0 });
}

#[test]
fn levels_above_five_are_five() {
    for l in [6u8, 9, 200, 255] {
        let t = Timing::new(l);
        assert_eq!(t.level, 5);
        assert_eq!(t.max_parallel, 1000);
        assert_eq!(t.connect_timeout, Timing::new(5).connect_timeout);
        assert_eq!(t.host_timeout, TimeSpan { secs: 900, nanos: 0 });
    }
}

#[test]
fn default_is_normal_template() {
    let d = Timing::default();
    assert_eq!(d.level, 3);
    assert_eq!(d.max_parallel, 100);
    assert_eq!(d.connect_timeout, TimeSpan { secs: 3, nanos: 0 });
    assert_eq!(d.max_retries, 2);
}

#[test]
fn faster_levels_retry_no_more() {
    for l in 0u8..5 {
        assert!(Timing::new(l + 1).max_retries <= Timing::new(l).max_retries);
    }
}

#[test]
fn time_span_constructors() {
    assert_eq!(TimeSpan::from_millis(1500), TimeSpan { secs: 1, nanos: 500_000_000 });
    assert_eq!(TimeSpan::from_millis(999), TimeSpan { secs: 0, nanos: 999_000_000 });
    assert_eq!(TimeSpan::from_secs(7), TimeSpan { secs: 7, nanos: 0 });
    assert_eq!(TimeSpan::zero(), TimeSpan { secs: 0, nanos: 0 });
}
