//! The library's error type.
use crate::timing::TimeSpan;
use vstd::prelude::*;

verus! {

/// Why an operation failed. Each variant carries the text its message
/// is built from.
#[derive(Debug, Clone, PartialEq, Eq)]
pub enum Error {
    /// Invalid target spec: the spec and the reason.
    Target(String, String),
    /// Invalid port spec: the spec and the reason.
    Ports(String, String),
    /// DNS resolution failed: the name and the reason.
    Dns(String, String),
    /// A raw-socket scan lacks privileges.
    Privilege(String),
    /// An I/O error, by its message.
    Io(String),
    /// The scan timed out after this long.
    Timeout(TimeSpan),
    /// Writing output failed.
    Output(String),
    /// Anything else.
    Other(String),
}

} // verus!
