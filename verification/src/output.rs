//! Output renderers: `normal` (Nmap-style text), `xml` (subset of nmap XML);
//! `json` selects what the JSON document holds.
pub mod json;
pub mod normal;
pub mod xml;

use crate::result::Timestamp;
use vstd::prelude::*;

verus! {

#[derive(Debug, Clone, Copy, PartialEq, Eq)]
pub enum OutputFormat {
    Normal,
    Xml,
    Json,
}

/// `format!("{:<w}", s)`: `s` padded with spaces on the right to `w`
/// characters.
pub open spec fn pad(s: Seq<char>, w: nat) -> Seq<char> {
    if s.len() >= w {
        s
    } else {
        s + Seq::new((w - s.len()) as nat, |i: int| ' ')
    }
}

/// Appends `s` padded on the right to `w` characters.
pub fn push_padded(out: &mut Vec<char>, s: &Vec<char>, w: usize)
    ensures
        final(out)@ == old(out)@ + pad(s@, w as nat),
{
    crate::text::push_all(out, s);
    let mut n: usize = s.len();
    while n < w
        invariant
            s.len() <= n <= w || (n == s.len() && n >= w),
            out@ == old(out)@ + s@ + Seq::new((n - s.len()) as nat, |i: int| ' '),
        decreases w - n,
    {
        out.push(' ');
        n = n + 1;
        assert(out@ =~= old(out)@ + s@ + Seq::new((n - s.len()) as nat, |i: int| ' '));
    }
    if s.len() >= w {
        assert(Seq::new((n - s.len()) as nat, |i: int| ' ') =~= Seq::<char>::empty());
        assert(out@ =~= old(out)@ + pad(s@, w as nat));
    } else {
        assert(out@ =~= old(out)@ + pad(s@, w as nat));
    }
}

/// What `chrono::DateTime::<Utc>::from_timestamp(secs, nanos)` formats to with
/// `pattern`, or `None` when chrono cannot represent that instant.
pub uninterp spec fn utc_format_of(secs: i64, nanos: u32, pattern: Seq<char>) -> Option<Seq<char>>;

/// The pattern the normal report writes its start time with.
pub open spec fn report_time_pattern() -> Seq<char> {
    "%Y-%m-%d %H:%M UTC"@
}

/// Formats a UTC instant with a chrono `strftime` pattern (one whose items
/// all exist, so displaying it cannot fail).
#[verifier::external_body]
pub(crate) fn format_utc(ts: Timestamp, pattern: &str) -> (r: Option<String>)
    requires
        pattern@ == report_time_pattern(),
    ensures
        match r {
            Some(t) => utc_format_of(ts.secs, ts.nanos, pattern@) == Some(t@),
            None => utc_format_of(ts.secs, ts.nanos, pattern@) is None,
        },
{
    chrono::DateTime::from_timestamp(ts.secs, ts.nanos).map(|d| d.format(pattern).to_string())
}

} // verus!
