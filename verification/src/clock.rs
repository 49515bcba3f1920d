//! The system clock, and spans of time as whole seconds plus nanoseconds.
use vstd::prelude::*;

verus! {

#[verifier::external_type_specification]
#[verifier::external_body]
pub struct ExSystemTime(std::time::SystemTime);

/// Calls std's `SystemTime::now`. Nothing is claimed of the result: it is the
/// clock's reading.
#[verifier::external_body]
fn system_now() -> std::time::SystemTime {
    std::time::SystemTime::now()
}

/// Calls std's `SystemTime::duration_since`. Nothing is claimed of the
/// result: std documents that the clock is not monotonic, and the call fails
/// (`None`) when `earlier` lies after `later`.
#[verifier::external_body]
fn duration_since(later: &std::time::SystemTime, earlier: &std::time::SystemTime) -> Option<std::time::Duration> {
    match later.duration_since(*earlier) {
        Ok(d) => Some(d),
        Err(_) => None,
    }
}

/// Calls std's `Duration::as_secs`. Nothing is claimed of the result.
#[verifier::external_body]
fn duration_secs(d: &std::time::Duration) -> u64 {
    d.as_secs()
}

/// Calls std's `Duration::subsec_nanos`. Claims what std documents: the
/// fraction of a second is under one second's worth of nanoseconds.
#[verifier::external_body]
fn duration_subsec_nanos(d: &std::time::Duration) -> (r: u32)
    ensures
        r < 1_000_000_000,
{
    d.subsec_nanos()
}

/// The time elapsed since `start` by the system clock, as whole seconds and
/// nanoseconds, or `None` when `start` lies in the clock's future.
pub fn elapsed_since(start: &std::time::SystemTime) -> (r: Option<(u64, u32)>)
    ensures
        r matches Some(e) ==> e.1 < 1_000_000_000,
{
    let now = system_now();
    match duration_since(&now, start) {
        Some(d) => Some((duration_secs(&d), duration_subsec_nanos(&d))),
        None => None,
    }
}

/// Whether the span `a` (seconds, nanoseconds) is at least the span `b`.
pub open spec fn span_at_least(a: (u64, u32), b: (u64, u32)) -> bool {
    a.0 > b.0 || (a.0 == b.0 && a.1 >= b.1)
}

pub fn span_ge(a: (u64, u32), b: (u64, u32)) -> (r: bool)
    ensures
        r == span_at_least(a, b),
{
    a.0 > b.0 || (a.0 == b.0 && a.1 >= b.1)
}

} // verus!
