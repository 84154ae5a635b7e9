//! What one connection attempt yields, once its duration has been measured.

use vstd::prelude::*;

verus! {

/// Nanoseconds in a millisecond.
pub const NANOS_PER_MILLI: u64 = 1_000_000;

/// A timeout of `timeout_ms` milliseconds in nanoseconds, or `u64::MAX`
/// where that is less.
pub open spec fn timeout_nanos(timeout_ms: u64) -> u64 {
    if timeout_ms * NANOS_PER_MILLI <= u64::MAX {
        (timeout_ms * NANOS_PER_MILLI) as u64
    } else {
        u64::MAX
    }
}

/// The duration that is reported for an attempt that took `elapsed_ns`:
/// a success reports what was measured, a failure never more than the
/// timeout.
pub open spec fn reported(success: bool, elapsed_ns: u64, timeout_ms: u64) -> u64 {
    if !success && elapsed_ns > timeout_nanos(timeout_ms) {
        timeout_nanos(timeout_ms)
    } else {
        elapsed_ns
    }
}

/// Outcome of one probe: whether the connection was made, and how long the
/// attempt took, in nanoseconds.
#[derive(Clone, Copy, Debug, PartialEq, Eq, Structural)]
pub struct ProbeOutcome {
    pub success: bool,
    pub elapsed_ns: u64,
}

/// `elapsed_ns`, but no more than the timeout of `timeout_ms` milliseconds.
pub fn clamp_to_timeout_ms(elapsed_ns: u64, timeout_ms: u64) -> (r: u64)
    ensures
        r == (if elapsed_ns > timeout_nanos(timeout_ms) {
            timeout_nanos(timeout_ms)
        } else {
            elapsed_ns
        }),
        r <= elapsed_ns,
        r <= timeout_nanos(timeout_ms),
{
    let max_ns: u64 = match timeout_ms.checked_mul(NANOS_PER_MILLI) {
        Some(ns) => ns,
        None => u64::MAX,
    };
    if elapsed_ns > max_ns {
        max_ns
    } else {
        elapsed_ns
    }
}

impl ProbeOutcome {
    /// The outcome of an attempt that was measured to take `elapsed_ns` under
    /// a timeout of `timeout_ms` milliseconds. The duration of a failure is
    /// clamped to the timeout; that of a success is kept as measured.
    pub fn measured(success: bool, elapsed_ns: u64, timeout_ms: u64) -> (r: ProbeOutcome)
        ensures
            r.success == success,
            r.elapsed_ns == reported(success, elapsed_ns, timeout_ms),
            !success ==> r.elapsed_ns <= timeout_nanos(timeout_ms),
            success ==> r.elapsed_ns == elapsed_ns,
    {
        if success {
            ProbeOutcome { success, elapsed_ns }
        } else {
            ProbeOutcome { success, elapsed_ns: clamp_to_timeout_ms(elapsed_ns, timeout_ms) }
        }
    }

    /// The outcome of an attempt that never reported back: a failure that
    /// took the whole timeout.
    pub fn abandoned(timeout_ms: u64) -> (r: ProbeOutcome)
        ensures
            !r.success,
            r.elapsed_ns == timeout_nanos(timeout_ms),
    {
        ProbeOutcome { success: false, elapsed_ns: clamp_to_timeout_ms(u64::MAX, timeout_ms) }
    }
}

} // verus!
