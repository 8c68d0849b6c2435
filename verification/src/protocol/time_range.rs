//! Time range parameters of API endpoints, in nanoseconds since the UNIX epoch.
use vstd::prelude::*;
use vstd::string::*;

use crate::text;
use crate::text::{concat, u64_to_decimal};

verus! {

/// Nanoseconds in a day.
pub const DAY_NS: u64 = 24 * 60 * 60 * 1_000_000_000;

/// Maximum time window, in nanoseconds, that a historical orders query may
/// span. Queries to `GET /orders` must supply an explicit range no wider than
/// this (7 days); wider or unbounded ranges are rejected with a 400.
pub const MAX_HISTORICAL_ORDERS_WINDOW_NS: u64 = 7 * 24 * 60 * 60 * 1_000_000_000;

/// Time range params for API endpoints.
///
/// Both fields are optional nanosecond timestamps (UNIX epoch):
/// - `start_timestamp_ns`: inclusive lower bound
/// - `end_timestamp_ns`: exclusive upper bound
///
/// Leave either field unset to query from the start (-∞) or through the end (+∞).
#[derive(Debug, Clone, Copy)]
pub struct TimeRangeNs {
    pub start_timestamp_ns: Option<u64>,
    pub end_timestamp_ns: Option<u64>,
}

impl Default for TimeRangeNs {
    fn default() -> (r: Self)
        ensures
            r.start_timestamp_ns is None,
            r.end_timestamp_ns is None,
    {
        TimeRangeNs { start_timestamp_ns: None, end_timestamp_ns: None }
    }
}

/// A bound given as signed nanoseconds since the epoch, kept only where it
/// is not before the epoch.
pub open spec fn unsigned_bound(ns: Option<i64>) -> Option<u64> {
    match ns {
        Some(n) => if n >= 0 {
            Some(n as u64)
        } else {
            None
        },
        None => None,
    }
}

/// Both bounds are present and the end is not after the start.
pub open spec fn is_inverted(r: TimeRangeNs) -> bool {
    match (r.start_timestamp_ns, r.end_timestamp_ns) {
        (Some(start), Some(end)) => end <= start,
        _ => false,
    }
}

/// The error `validate` and `ensure_within_max_window` give for an inverted range.
pub open spec fn inverted_message() -> Seq<char> {
    "end_timestamp_ns must be greater than start_timestamp_ns"@
}

/// The error `ensure_within_max_window` gives where a bound is missing.
pub open spec fn unbounded_message() -> Seq<char> {
    "a bounded time range is required: provide both start_timestamp_ns and end_timestamp_ns"@
}

/// The error `ensure_within_max_window` gives for a range wider than `max_window_ns`.
pub open spec fn too_wide_message(max_window_ns: u64) -> Seq<char> {
    "time range too wide: maximum "@ + text::decimal((max_window_ns / DAY_NS) as nat) + " days"@
}

/// What `ensure_within_max_window` answers.
pub open spec fn window_check(r: TimeRangeNs, max_window_ns: u64) -> Result<(), Seq<char>> {
    match (r.start_timestamp_ns, r.end_timestamp_ns) {
        (Some(start), Some(end)) => if end <= start {
            Err(inverted_message())
        } else if end - start > max_window_ns {
            Err(too_wide_message(max_window_ns))
        } else {
            Ok(())
        },
        _ => Err(unbounded_message()),
    }
}

pub open spec fn unit_result_view(r: Result<(), String>) -> Result<(), Seq<char>> {
    match r {
        Ok(()) => Ok(()),
        Err(e) => Err(e@),
    }
}

impl TimeRangeNs {
    /// Builds a range from signed nanosecond timestamps; a bound before the
    /// UNIX epoch (or one that could not be expressed) is dropped to `None`.
    pub fn from_timestamp_nanos(start: Option<i64>, end: Option<i64>) -> (r: Self)
        ensures
            r.start_timestamp_ns == unsigned_bound(start),
            r.end_timestamp_ns == unsigned_bound(end),
    {
        TimeRangeNs { start_timestamp_ns: to_unsigned(start), end_timestamp_ns: to_unsigned(end) }
    }

    /// Refuses a range whose end is not after its start; a missing bound is fine.
    pub fn validate(&self) -> (r: Result<(), String>)
        ensures
            r is Err <==> is_inverted(*self),
            r matches Err(e) ==> e@ == inverted_message(),
    {
        if let (Some(start), Some(end)) = (self.start_timestamp_ns, self.end_timestamp_ns) {
            if end <= start {
                return Err(String::from_str(
                    "end_timestamp_ns must be greater than start_timestamp_ns",
                ));
            }
        }
        Ok(())
    }

    /// Requires an explicit, bounded range no wider than `max_window_ns`.
    ///
    /// Both bounds must be present and `end - start` must not exceed
    /// `max_window_ns`. Unlike silently clamping, this surfaces a clear error so
    /// the caller knows exactly which window was (not) applied.
    pub fn ensure_within_max_window(&self, max_window_ns: u64) -> (r: Result<(), String>)
        ensures
            unit_result_view(r) == window_check(*self, max_window_ns),
    {
        let (start, end) = match (self.start_timestamp_ns, self.end_timestamp_ns) {
            (Some(start), Some(end)) => (start, end),
            _ => {
                return Err(String::from_str(
                    "a bounded time range is required: provide both start_timestamp_ns and end_timestamp_ns",
                ));
            },
        };
        if end <= start {
            return Err(String::from_str(
                "end_timestamp_ns must be greater than start_timestamp_ns",
            ));
        }
        if end - start > max_window_ns {
            let days = u64_to_decimal(max_window_ns / DAY_NS);
            let head = concat("time range too wide: maximum ", days.as_str());
            return Err(concat(head.as_str(), " days"));
        }
        Ok(())
    }
}

fn to_unsigned(ns: Option<i64>) -> (r: Option<u64>)
    ensures
        r == unsigned_bound(ns),
{
    match ns {
        Some(n) => if n >= 0 {
            Some(n as u64)
        } else {
            None
        },
        None => None,
    }
}

/// A range accepted by `ensure_within_max_window` is accepted by `validate`.
pub proof fn lemma_window_implies_valid(r: TimeRangeNs, max_window_ns: u64)
    requires
        window_check(r, max_window_ns) is Ok,
    ensures
        !is_inverted(r),
        r.start_timestamp_ns is Some && r.end_timestamp_ns is Some,
        r.end_timestamp_ns->0 - r.start_timestamp_ns->0 <= max_window_ns,
{
}

} // verus!

verus! {

/// `validate` refuses a range exactly when both bounds are given and the end
/// is not after the start: a range with a missing bound is always accepted.
pub proof fn lemma_validate_refuses_only_inverted(r: TimeRangeNs)
    ensures
        is_inverted(r) <==> (r.start_timestamp_ns is Some && r.end_timestamp_ns is Some
            && r.end_timestamp_ns->0 <= r.start_timestamp_ns->0),
        r.start_timestamp_ns is None ==> !is_inverted(r),
        r.end_timestamp_ns is None ==> !is_inverted(r),
{
}

/// `ensure_within_max_window` accepts a range exactly when both bounds are
/// given, the end is after the start, and the range is at most
/// `max_window_ns` wide.
pub proof fn lemma_window_accepts_exactly(r: TimeRangeNs, max_window_ns: u64)
    ensures
        window_check(r, max_window_ns) is Ok <==> (r.start_timestamp_ns is Some
            && r.end_timestamp_ns is Some && r.start_timestamp_ns->0 < r.end_timestamp_ns->0
            && r.end_timestamp_ns->0 - r.start_timestamp_ns->0 <= max_window_ns),
{
}

} // verus!
