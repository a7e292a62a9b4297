//! Spans of time written as text, such as `1h 30m`.

use vstd::prelude::*;

#[allow(unused_imports)]
use crate::spans::{spans_fit, writes_seconds};
#[allow(unused_imports)]
use crate::text::decimal_value;
use crate::time::Duration;
#[allow(unused_imports)]
use crate::time::NANOS_PER_SEC;

verus! {

/// The number of nanoseconds that `humantime::parse_duration` reads from a text.
pub uninterp spec fn parsed_nanos(text: Seq<char>) -> Option<nat>;

/// `humantime::parse_duration`: the span that a text writes, in nanoseconds, or
/// nothing where the text is no span or is out of range. The function panics exactly
/// where its sum has come to 2^64 - 1 seconds and the nanoseconds fill up one more
/// second, which `spans_fit` excludes. What it reads is only named, but for a plain
/// number of seconds, which it reads as that many seconds, up to 64 bits of them.
#[verifier::external_body]
fn humantime_nanos(text: &str) -> (r: Option<u128>)
    requires
        spans_fit(text@),
    ensures
        match r {
            Some(n) => parsed_nanos(text@) == Some(n as nat),
            None => parsed_nanos(text@) is None,
        },
        writes_seconds(text@) ==> r == (if decimal_value(text@.drop_last()) <= u64::MAX {
            Some((decimal_value(text@.drop_last()) * NANOS_PER_SEC) as u128)
        } else {
            None
        }),
{
    match humantime::parse_duration(text) {
        Ok(d) => Some(d.as_nanos()),
        Err(_) => None,
    }
}

/// The span that a text writes, where it writes one.
pub fn parse_duration(text: &str) -> (r: Option<Duration>)
    requires
        spans_fit(text@),
    ensures
        match r {
            Some(d) => parsed_nanos(text@) == Some(d@),
            None => parsed_nanos(text@) is None,
        },
        writes_seconds(text@) ==> if decimal_value(text@.drop_last()) <= u64::MAX {
            r is Some && r->0@ == decimal_value(text@.drop_last()) * NANOS_PER_SEC
        } else {
            r is None
        },
{
    match humantime_nanos(text) {
        Some(n) => Some(Duration::from_nanos(n)),
        None => None,
    }
}

} // verus!
