//! Nmap-style timing templates T0..T5. Maps to concurrency, per-host
//! parallelism, connect timeout, and read timeout.
use vstd::prelude::*;

verus! {

/// A span of time: whole seconds plus nanoseconds below one second.
#[derive(Debug, Clone, Copy, PartialEq, Eq, PartialOrd, Ord, Hash, Default)]
pub struct TimeSpan {
    pub secs: u64,
    pub nanos: u32,
}

impl TimeSpan {
    /// Total length in nanoseconds.
    pub open spec fn total_nanos(self) -> nat {
        self.secs as nat * 1_000_000_000 + self.nanos as nat
    }

    pub open spec fn wf(self) -> bool {
        self.nanos < 1_000_000_000
    }

    /// Whole seconds.
    pub fn from_secs(secs: u64) -> (t: TimeSpan)
        ensures
            t.wf(),
            t.secs == secs,
            t.nanos == 0,
    {
        TimeSpan { secs, nanos: 0 }
    }

    /// Milliseconds, split into seconds and nanoseconds.
    pub fn from_millis(ms: u64) -> (t: TimeSpan)
        ensures
            t.wf(),
            t.total_nanos() == ms as nat * 1_000_000,
    {
        let t = TimeSpan { secs: ms / 1000, nanos: ((ms % 1000) as u32) * 1_000_000 };
        assert(t.total_nanos() == ms as nat * 1_000_000) by (nonlinear_arith)
            requires
                t.secs == ms / 1000,
                t.nanos == (ms % 1000) * 1_000_000,
        ;
        t
    }

    /// The empty span.
    pub fn zero() -> (t: TimeSpan)
        ensures
            t.wf(),
            t.total_nanos() == 0,
    {
        TimeSpan { secs: 0, nanos: 0 }
    }
}

/// Settings that one timing level stands for.
#[derive(Debug, Clone, Copy)]
pub struct Timing {
    pub level: u8,
    /// Total number of concurrent in-flight scan tasks.
    pub max_parallel: usize,
    /// TCP connect / SYN response timeout.
    pub connect_timeout: TimeSpan,
    /// Banner read timeout for service detection.
    pub read_timeout: TimeSpan,
    /// Maximum retries for a probe.
    pub max_retries: u32,
    /// Per-target host timeout (overall, 0 = none).
    pub host_timeout: TimeSpan,
}

/// The level a requested level stands for: anything above 5 is 5.
pub open spec fn effective_level(level: u8) -> nat {
    if level <= 5 {
        level as nat
    } else {
        5
    }
}

/// The template of each level, in milliseconds where a time is meant:
/// (parallelism, connect timeout, read timeout, retries, host timeout).
pub open spec fn template(level: nat) -> (nat, nat, nat, nat, nat) {
    if level == 0 {
        (1, 15_000, 10_000, 5, 0)
    } else if level == 1 {
        (5, 10_000, 8_000, 3, 0)
    } else if level == 2 {
        (30, 5_000, 5_000, 2, 0)
    } else if level == 3 {
        (100, 3_000, 3_000, 2, 0)
    } else if level == 4 {
        (300, 1_500, 2_000, 1, 0)
    } else {
        (1000, 800, 1_000, 1, 900_000)
    }
}

impl Timing {
    /// What `Timing::new(level)` holds.
    pub open spec fn matches_template(self, level: u8) -> bool {
        let l = effective_level(level);
        let t = template(l);
        &&& self.level as nat == l
        &&& self.max_parallel as nat == t.0
        &&& self.connect_timeout.total_nanos() == t.1 * 1_000_000
        &&& self.read_timeout.total_nanos() == t.2 * 1_000_000
        &&& self.max_retries as nat == t.3
        &&& self.host_timeout.total_nanos() == t.4 * 1_000_000
        &&& self.connect_timeout.wf()
        &&& self.read_timeout.wf()
        &&& self.host_timeout.wf()
    }

    pub fn new(level: u8) -> (t: Timing)
        ensures
            t.matches_template(level),
    {
        match level {
            0 => Timing {
                level: 0,
                max_parallel: 1,
                connect_timeout: TimeSpan::from_secs(15),
                read_timeout: TimeSpan::from_secs(10),
                max_retries: 5,
                host_timeout: TimeSpan::zero(),
            },
            1 => Timing {
                level: 1,
                max_parallel: 5,
                connect_timeout: TimeSpan::from_secs(10),
                read_timeout: TimeSpan::from_secs(8),
                max_retries: 3,
                host_timeout: TimeSpan::zero(),
            },
            2 => Timing {
                level: 2,
                max_parallel: 30,
                connect_timeout: TimeSpan::from_secs(5),
                read_timeout: TimeSpan::from_secs(5),
                max_retries: 2,
                host_timeout: TimeSpan::zero(),
            },
            3 => Timing {
                level: 3,
                max_parallel: 100,
                connect_timeout: TimeSpan::from_secs(3),
                read_timeout: TimeSpan::from_secs(3),
                max_retries: 2,
                host_timeout: TimeSpan::zero(),
            },
            4 => Timing {
                level: 4,
                max_parallel: 300,
                connect_timeout: TimeSpan::from_millis(1500),
                read_timeout: TimeSpan::from_secs(2),
                max_retries: 1,
                host_timeout: TimeSpan::zero(),
            },
            _ => Timing {
                level: 5,
                max_parallel: 1000,
                connect_timeout: TimeSpan::from_millis(800),
                read_timeout: TimeSpan::from_secs(1),
                max_retries: 1,
                host_timeout: TimeSpan::from_secs(900),
            },
        }
    }
}

impl Default for Timing {
    /// The default template is level 3 ("normal").
    fn default() -> (t: Timing)
        ensures
            t.matches_template(3),
    {
        Timing::new(3)
    }
}

/// A faster timing level allows strictly more scans in flight, and waits
/// no longer for a connection.
pub proof fn law_faster_levels_are_more_aggressive(a: Timing, b: Timing, la: u8, lb: u8)
    requires
        a.matches_template(la),
        b.matches_template(lb),
        effective_level(la) < effective_level(lb),
    ensures
        a.max_parallel < b.max_parallel,
        b.connect_timeout.total_nanos() <= a.connect_timeout.total_nanos(),
        b.max_retries <= a.max_retries,
{
}

/// Levels above 5 behave exactly as level 5.
pub proof fn law_levels_saturate_at_five(a: Timing, l: u8)
    requires
        a.matches_template(l),
        l >= 5,
    ensures
        a.matches_template(5),
{
}

} // verus!
