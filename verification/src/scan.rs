//! Scanner decisions.
//!
//! Two strategies:
//!   * `connect` — userspace TCP connect(); works without privileges.
//!   * `syn`     — raw SYN scan; needs CAP_NET_RAW / root.
//!
//! The sockets themselves live outside this crate; this module decides what
//! each answer means and when to retry.
pub mod syn;

use crate::result::{PortResult, PortState, Protocol};
use crate::text::{chars_of, string_of};
use crate::timing::Timing;
use vstd::prelude::*;

verus! {

/// What one TCP connect attempt produced.
#[derive(Debug, Clone)]
pub enum ConnectAnswer {
    /// Connected; round-trip time in milliseconds since the scan started.
    Connected(u64),
    /// Refused or reset; milliseconds since the scan started.
    Refused(u64),
    /// Failed otherwise, with the error's message.
    Failed(String),
    /// No answer within the connect timeout.
    TimedOut,
}

/// The retry loop of a connect scan on one port: attempts `0..=max_retries`.
#[derive(Debug, Clone)]
pub struct ConnectScan {
    pub port: u16,
    pub max_retries: u32,
    /// Number of the attempt whose answer is awaited.
    pub attempt: u32,
}

/// What the connect scan wants done after an answer.
#[derive(Debug, Clone)]
pub enum ConnectStep {
    /// Sleep this many milliseconds, then attempt again.
    RetryAfter(u64),
    /// The port's result.
    Done(PortResult),
}

/// A TCP port result without service information.
pub open spec fn is_tcp_result(
    r: PortResult,
    port: u16,
    state: PortState,
    reason: Seq<char>,
    rtt_ms: Option<u64>,
) -> bool {
    &&& r.port == port
    &&& r.protocol == Protocol::Tcp
    &&& r.state == state
    &&& r.reason@ == reason
    &&& r.service is None
    &&& r.rtt_ms == rtt_ms
}

/// A TCP port result without service information.
pub fn tcp_result(port: u16, state: PortState, reason: String, rtt_ms: Option<u64>) -> (r:
    PortResult)
    ensures
        is_tcp_result(r, port, state, reason@, rtt_ms),
{
    PortResult { port, protocol: Protocol::Tcp, state, reason, service: None, rtt_ms }
}

impl ConnectScan {
    pub open spec fn wf(&self) -> bool {
        self.attempt <= self.max_retries
    }

    pub fn new(port: u16, timing: &Timing) -> (s: ConnectScan)
        ensures
            s.wf(),
            s.port == port,
            s.max_retries == timing.max_retries,
            s.attempt == 0,
    {
        ConnectScan { port, max_retries: timing.max_retries, attempt: 0 }
    }

    /// Records the answer to the current attempt. A connection means open,
    /// a refusal closed; anything else is retried after `50 * (attempt + 1)`
    /// milliseconds until the retries run out, and then the port is
    /// filtered with the last error as its reason.
    pub fn record(&mut self, answer: ConnectAnswer) -> (step: ConnectStep)
        requires
            old(self).wf(),
        ensures
            final(self).wf(),
            final(self).port == old(self).port,
            final(self).max_retries == old(self).max_retries,
            match answer {
                ConnectAnswer::Connected(ms) => step matches ConnectStep::Done(r) && is_tcp_result(
                    r,
                    old(self).port,
                    PortState::Open,
                    "syn-ack"@,
                    Some(ms),
                ),
                ConnectAnswer::Refused(ms) => step matches ConnectStep::Done(r) && is_tcp_result(
                    r,
                    old(self).port,
                    PortState::Closed,
                    "conn-refused"@,
                    Some(ms),
                ),
                ConnectAnswer::Failed(m) => if old(self).attempt < old(self).max_retries {
                    (step matches ConnectStep::RetryAfter(ms) && ms == 50 * (old(self).attempt + 1))
                        && final(self).attempt == old(self).attempt + 1
                } else {
                    step matches ConnectStep::Done(r) && is_tcp_result(
                        r,
                        old(self).port,
                        PortState::Filtered,
                        m@,
                        None,
                    )
                },
                ConnectAnswer::TimedOut => if old(self).attempt < old(self).max_retries {
                    (step matches ConnectStep::RetryAfter(ms) && ms == 50 * (old(self).attempt + 1))
                        && final(self).attempt == old(self).attempt + 1
                } else {
                    step matches ConnectStep::Done(r) && is_tcp_result(
                        r,
                        old(self).port,
                        PortState::Filtered,
                        "timeout"@,
                        None,
                    )
                },
            },
    {
        let last_err = match answer {
            ConnectAnswer::Connected(ms) => {
                return ConnectStep::Done(
                    tcp_result(self.port, PortState::Open, string_of(&chars_of("syn-ack")), Some(ms)),
                );
            },
            ConnectAnswer::Refused(ms) => {
                return ConnectStep::Done(
                    tcp_result(
                        self.port,
                        PortState::Closed,
                        string_of(&chars_of("conn-refused")),
                        Some(ms),
                    ),
                );
            },
            ConnectAnswer::Failed(m) => m,
            ConnectAnswer::TimedOut => string_of(&chars_of("timeout")),
        };
        if self.attempt < self.max_retries {
            let wait: u64 = 50 * (self.attempt as u64 + 1);
            self.attempt = self.attempt + 1;
            ConnectStep::RetryAfter(wait)
        } else {
            ConnectStep::Done(tcp_result(self.port, PortState::Filtered, last_err, None))
        }
    }
}

/// A run of connect-scan states, each produced from the one before by a
/// `record` that asked for a retry: the same scan, one attempt further.
pub open spec fn retry_run(states: Seq<ConnectScan>) -> bool {
    forall|i: int|
        #![trigger states[i]]
        0 <= i < states.len() - 1 ==> states[i + 1].attempt == states[i].attempt + 1
            && states[i + 1].max_retries == states[i].max_retries && states[i + 1].wf()
}

proof fn lemma_retry_run_at(states: Seq<ConnectScan>, i: int)
    requires
        retry_run(states),
        states[0].attempt == 0,
        0 <= i < states.len(),
    ensures
        states[i].attempt == i,
        states[i].max_retries == states[0].max_retries,
        i > 0 ==> states[i].wf(),
    decreases i,
{
    if i > 0 {
        lemma_retry_run_at(states, i - 1);
        assert(states[i - 1 + 1] == states[i]);
    }
}

/// A connect scan asks for at most `max_retries` retries: a run of retries
/// from a fresh scan holds at most `max_retries + 1` states, the last one at
/// attempt `states.len() - 1`.
pub proof fn law_connect_retries_bounded(states: Seq<ConnectScan>)
    requires
        states.len() > 0,
        states[0].attempt == 0,
        states[0].wf(),
        retry_run(states),
    ensures
        states.last().attempt == states.len() - 1,
        states.len() <= states[0].max_retries + 1,
{
    lemma_retry_run_at(states, states.len() - 1);
}

} // verus!
