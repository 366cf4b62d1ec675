//! Points in time, counted from the Unix epoch in whole seconds and
//! nanoseconds, and the reading of the wall clock.

use std::time::{Duration, SystemTimeError, UNIX_EPOCH};
use vstd::prelude::*;
use vstd::string::StringSliceAdditionalSpecFns;

use crate::canon::{decimal, padded_decimal, push_decimal, push_padded_decimal, push_text};

verus! {

/// Nanoseconds in one second.
pub const NANOS_PER_SEC: u32 = 1_000_000_000;

/// A point in time at or after the Unix epoch.
#[derive(Clone, Copy, Debug, PartialEq, Eq)]
pub struct Timestamp {
    secs: u64,
    nanos: u32,
}

/// What a `Timestamp` stands for: `secs + nanos / 10^9` seconds since the
/// epoch.
pub struct TimestampView {
    pub secs: u64,
    pub nanos: u32,
}

impl TimestampView {
    /// The canonical text of the point in time: its seconds since the epoch
    /// as a decimal number with nine digits after the point.
    pub open spec fn encoding(self) -> Seq<u8> {
        decimal(self.secs as nat) + ".".spec_bytes() + padded_decimal(self.nanos as nat, 9)
    }
}

impl View for Timestamp {
    type V = TimestampView;

    closed spec fn view(&self) -> TimestampView {
        TimestampView { secs: self.secs, nanos: self.nanos }
    }
}

/// The wall clock reads a time before the Unix epoch.
#[derive(Clone, Copy, Debug, PartialEq, Eq)]
pub struct ClockError;

/// `std::time::SystemTimeError`, the error of `SystemTime::elapsed`.
#[verifier::external_type_specification]
#[verifier::external_body]
pub struct ExSystemTimeError(SystemTimeError);

/// Calls `SystemTime::elapsed` on `UNIX_EPOCH`: the time that has passed
/// since the epoch by the system clock, or an error when the clock reads a
/// time before the epoch. Nothing is promised of the outcome.
#[verifier::external_body]
fn since_epoch() -> Result<Duration, SystemTimeError> {
    UNIX_EPOCH.elapsed()
}

/// `Duration::as_secs`: the whole seconds of a duration.
pub assume_specification[ Duration::as_secs ](duration: &Duration) -> u64;

/// `Duration::subsec_nanos`: the part of a duration beyond its whole seconds,
/// in nanoseconds, which is always less than one second.
pub assume_specification[ Duration::subsec_nanos ](duration: &Duration) -> (nanos: u32)
    ensures
        nanos < 1_000_000_000,
;

impl Timestamp {
    #[verifier::type_invariant]
    spec fn in_range(self) -> bool {
        self.nanos < NANOS_PER_SEC
    }

    /// The point in time `secs` seconds and `nanos` nanoseconds after the
    /// epoch; `None` when `nanos` is a second or more.
    pub fn new(secs: u64, nanos: u32) -> (made: Option<Timestamp>)
        ensures
            made is Some <==> nanos < NANOS_PER_SEC,
            made matches Some(timestamp) ==> timestamp@ == (TimestampView { secs, nanos }),
    {
        if nanos < NANOS_PER_SEC {
            Some(Timestamp { secs, nanos })
        } else {
            None
        }
    }

    /// Reads the wall clock. Fails when the clock reads a time before the
    /// epoch, and only then; which of the two happens, and which time is
    /// read, is the clock's matter. What is made of the seconds and
    /// nanoseconds read is what `Timestamp::new` makes of them.
    pub fn now() -> (read: Result<Timestamp, ClockError>)
        ensures
            read matches Ok(timestamp) ==> timestamp@.nanos < NANOS_PER_SEC,
    {
        match since_epoch() {
            Ok(elapsed) => {
                let secs = elapsed.as_secs();
                let nanos = elapsed.subsec_nanos();
                Ok(Timestamp::new(secs, nanos).unwrap())
            },
            Err(_) => Err(ClockError),
        }
    }

    /// Appends the canonical text of the point in time.
    pub fn encode_into(&self, out: &mut Vec<u8>)
        ensures
            final(out)@ == old(out)@ + self@.encoding(),
    {
        push_decimal(out, self.secs);
        push_text(out, ".");
        push_padded_decimal(out, self.nanos, 9);
    }

    /// Whole seconds since the epoch.
    pub fn secs(&self) -> (secs: u64)
        ensures
            secs == self@.secs,
    {
        self.secs
    }

    /// Nanoseconds beyond the whole seconds.
    pub fn nanos(&self) -> (nanos: u32)
        ensures
            nanos == self@.nanos,
            nanos < NANOS_PER_SEC,
    {
        proof {
            use_type_invariant(self);
        }
        self.nanos
    }
}

} // verus!
