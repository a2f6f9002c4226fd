//! Instants of the system clock, read as distances from the Unix epoch.

use std::time::Duration;
use std::time::SystemTime;
use std::time::UNIX_EPOCH;
use vstd::prelude::*;

verus! {

/// `std::time::SystemTime`, carried through as an opaque value.
#[verifier::external_type_specification]
#[verifier::external_body]
pub struct ExSystemTime(SystemTime);

/// The length of a `std::time::Duration`, in nanoseconds: its whole seconds
/// and what it has beyond them, taken together.
pub uninterp spec fn duration_nanos(d: Duration) -> nat;

/// How far an instant of the system clock lies after the Unix epoch, in
/// nanoseconds; negative for an instant before it. It is what
/// `SystemTime::duration_since` measures from `UNIX_EPOCH`.
pub uninterp spec fn unix_nanos(t: SystemTime) -> int;

/// The number of nanoseconds in a second.
pub const SECOND_NANOS: u32 = 1_000_000_000;

/// `Duration::as_secs`: the whole seconds of the duration.
pub assume_specification[ Duration::as_secs ](d: &Duration) -> (secs: u64)
    ensures
        secs == duration_nanos(*d) / (SECOND_NANOS as nat),
;

/// `Duration::subsec_nanos`: what the duration has beyond its whole seconds,
/// in nanoseconds, which is less than a second.
pub assume_specification[ Duration::subsec_nanos ](d: &Duration) -> (nanos: u32)
    ensures
        nanos == duration_nanos(*d) % (SECOND_NANOS as nat),
;

/// `Duration::from_secs`: the duration of that many whole seconds.
pub assume_specification[ Duration::from_secs ](secs: u64) -> (d: Duration)
    ensures
        duration_nanos(d) == secs * SECOND_NANOS,
;

/// `SystemTime::duration_since` from `UNIX_EPOCH`: how far `t` lies after
/// the epoch, or, as an error, how far before it.
#[verifier::external_body]
pub(crate) fn since_unix_epoch(t: SystemTime) -> (r: Result<Duration, Duration>)
    ensures
        r matches Ok(d) ==> unix_nanos(t) == duration_nanos(d),
        r matches Err(d) ==> unix_nanos(t) == -duration_nanos(d),
{
    match t.duration_since(UNIX_EPOCH) {
        Ok(d) => Ok(d),
        Err(e) => Err(e.duration()),
    }
}

/// `std::time::UNIX_EPOCH`: the instant that lies no time from the epoch.
#[verifier::external_body]
pub(crate) fn unix_epoch() -> (t: SystemTime)
    ensures
        unix_nanos(t) == 0,
{
    UNIX_EPOCH
}

/// `SystemTime::checked_add`: the instant that lies `d` after `t`, or `None`
/// where the clock of this platform cannot hold it. Stated for whole seconds,
/// which every clock counts exactly.
pub assume_specification[ SystemTime::checked_add ](t: &SystemTime, d: Duration) -> (r: Option<
    SystemTime,
>)
    ensures
        r matches Some(u) ==> (duration_nanos(d) % (SECOND_NANOS as nat) == 0 ==> unix_nanos(u)
            == unix_nanos(*t) + duration_nanos(d)),
;

/// `SystemTime::checked_sub`: the instant that lies `d` before `t`, or `None`
/// where the clock of this platform cannot hold it. Stated for whole seconds,
/// which every clock counts exactly.
pub assume_specification[ SystemTime::checked_sub ](t: &SystemTime, d: Duration) -> (r: Option<
    SystemTime,
>)
    ensures
        r matches Some(u) ==> (duration_nanos(d) % (SECOND_NANOS as nat) == 0 ==> unix_nanos(u)
            == unix_nanos(*t) - duration_nanos(d)),
;

/// Where an instant lies from the Unix epoch: on which side, and how far, in
/// whole seconds and the nanoseconds beyond them.
#[derive(Clone, Copy, PartialEq, Eq, Structural, Debug)]
pub struct EpochOffset {
    /// Whether the instant lies before the epoch.
    pub before: bool,
    /// The whole seconds between the instant and the epoch.
    pub secs: u64,
    /// The nanoseconds beyond the whole seconds.
    pub subsec_nanos: u32,
}

impl EpochOffset {
    /// How far the instant lies after the epoch, in nanoseconds; negative
    /// before it.
    pub open spec fn nanos(self) -> int {
        let distance = self.secs * SECOND_NANOS + self.subsec_nanos;
        if self.before {
            -distance
        } else {
            distance
        }
    }

    /// The offset of an instant of the system clock.
    pub fn of(t: SystemTime) -> (offset: EpochOffset)
        ensures
            offset.nanos() == unix_nanos(t),
    {
        match since_unix_epoch(t) {
            Ok(d) => EpochOffset {
                before: false,
                secs: d.as_secs(),
                subsec_nanos: d.subsec_nanos(),
            },
            Err(d) => EpochOffset {
                before: true,
                secs: d.as_secs(),
                subsec_nanos: d.subsec_nanos(),
            },
        }
    }
}

} // verus!
