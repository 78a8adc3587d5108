//! Points in time as the system clock gives them: whole seconds relative to
//! the Unix epoch (negative before it) and the nanoseconds past them.

use vstd::prelude::*;

verus! {

/// Nanoseconds in a second.
pub const NANOS_PER_SEC: u32 = 1_000_000_000;

/// A point in time: `secs` whole seconds from the Unix epoch (negative
/// before it) plus `nanos` nanoseconds.
#[derive(Clone, Copy, Debug)]
pub struct Timestamp {
    pub secs: i128,
    pub nanos: u32,
}

/// `a` is at or after `b`: time points order by seconds, then nanoseconds.
pub open spec fn at_or_after(a: Timestamp, b: Timestamp) -> bool {
    a.secs > b.secs || (a.secs == b.secs && a.nanos >= b.nanos)
}

/// A reading of the system clock, measured from the Unix epoch.
pub enum ClockReading {
    /// The clock stands `secs` seconds and `nanos` nanoseconds after the epoch.
    SinceEpoch { secs: u64, nanos: u32 },
    /// The clock stands `secs` seconds and `nanos` nanoseconds before the epoch.
    BeforeEpoch { secs: u64, nanos: u32 },
}

/// Reads the system clock (`UNIX_EPOCH.elapsed()`, that is
/// `SystemTime::now()` measured from the epoch; a clock before the epoch
/// comes back as the error's `duration()`), split into whole seconds and
/// the nanoseconds past them.
///
/// The only claim is the one `Duration::subsec_nanos` documents: the
/// nanoseconds are less than one billion. Which time it is, is not claimed.
#[verifier::external_body]
pub fn clock_reading() -> (r: ClockReading)
    ensures
        match r {
            ClockReading::SinceEpoch { nanos, .. } => nanos < NANOS_PER_SEC,
            ClockReading::BeforeEpoch { nanos, .. } => nanos < NANOS_PER_SEC,
        },
{
    match std::time::UNIX_EPOCH.elapsed() {
        Ok(d) => ClockReading::SinceEpoch { secs: d.as_secs(), nanos: d.subsec_nanos() },
        Err(e) => {
            let d = e.duration();
            ClockReading::BeforeEpoch { secs: d.as_secs(), nanos: d.subsec_nanos() }
        },
    }
}

/// The time point a clock reading stands for.
pub open spec fn spec_timestamp_of(r: ClockReading) -> Timestamp {
    match r {
        ClockReading::SinceEpoch { secs, nanos } => Timestamp { secs: secs as i128, nanos },
        ClockReading::BeforeEpoch { secs, nanos } => if nanos == 0 {
            Timestamp { secs: -(secs as int) as i128, nanos: 0 }
        } else {
            Timestamp { secs: (-(secs as int) - 1) as i128, nanos: (NANOS_PER_SEC - nanos) as u32 }
        },
    }
}

/// Turns a clock reading into a time point; a reading before the epoch
/// borrows a second when it has nanoseconds.
pub fn timestamp_of(r: ClockReading) -> (t: Timestamp)
    requires
        match r {
            ClockReading::SinceEpoch { nanos, .. } => nanos < NANOS_PER_SEC,
            ClockReading::BeforeEpoch { nanos, .. } => nanos < NANOS_PER_SEC,
        },
    ensures
        t == spec_timestamp_of(r),
        t.nanos < NANOS_PER_SEC,
{
    match r {
        ClockReading::SinceEpoch { secs, nanos } => Timestamp { secs: secs as i128, nanos },
        ClockReading::BeforeEpoch { secs, nanos } => {
            if nanos == 0 {
                Timestamp { secs: -(secs as i128), nanos: 0 }
            } else {
                Timestamp { secs: -(secs as i128) - 1, nanos: NANOS_PER_SEC - nanos }
            }
        },
    }
}

/// The current time. Nothing is claimed of which time it is, only that its
/// nanoseconds are less than one billion.
pub fn timestamp_now() -> (t: Timestamp)
    ensures
        t.nanos < NANOS_PER_SEC,
{
    timestamp_of(clock_reading())
}

} // verus!
