//! Span timestamps: a point in time as nanoseconds since the Unix epoch.
//!
//! The clock is not guaranteed monotonic, so a difference between two
//! timestamps is only reported when the later operand really is no
//! earlier than the other; otherwise no result is produced.
use vstd::prelude::*;

use std::time::SystemTime;
use std::time::UNIX_EPOCH;

verus! {

/// Relies on std::time::SystemTime::now: the nanoseconds between the
/// Unix epoch and now; a clock set before the epoch reads as zero.
#[verifier::external_body]
fn now_epoch_nanos() -> u128 {
    SystemTime::now().duration_since(UNIX_EPOCH).map(|d| d.as_nanos()).unwrap_or(0)
}

/// A point in time, as nanoseconds since the Unix epoch.
#[derive(Debug, PartialEq, Eq, Clone, Copy, Structural)]
pub struct Timestamp {
    nanos: u128,
}

impl Timestamp {
    /// Nanoseconds since the Unix epoch.
    pub closed spec fn spec_nanos(self) -> u128 {
        self.nanos
    }

    /// The current time.
    pub fn now() -> Self {
        Timestamp { nanos: now_epoch_nanos() }
    }

    /// The point `nanos` nanoseconds after the Unix epoch.
    pub fn from_nanos(nanos: u128) -> (r: Self)
        ensures
            r.spec_nanos() == nanos,
    {
        Timestamp { nanos }
    }

    /// Milliseconds since the Unix epoch.
    pub fn as_millis(&self) -> (r: u128)
        ensures
            r == self.spec_nanos() / 1000000,
    {
        self.nanos / 1000000
    }

    /// Microseconds since the Unix epoch.
    pub fn as_micros(&self) -> (r: u128)
        ensures
            r == self.spec_nanos() / 1000,
    {
        self.nanos / 1000
    }

    /// Nanoseconds since the Unix epoch.
    pub fn as_nanos(&self) -> (r: u128)
        ensures
            r == self.spec_nanos(),
    {
        self.nanos
    }

    /// Milliseconds from `other` to `self`; nothing when `other` is later.
    pub fn duration_since_as_millis(&self, other: &Self) -> (r: Option<u128>)
        ensures
            r is Some <==> self.spec_nanos() >= other.spec_nanos(),
            r is Some ==> r.unwrap() == (self.spec_nanos() - other.spec_nanos()) as u128 / 1000000,
    {
        if self.nanos >= other.nanos {
            Some((self.nanos - other.nanos) / 1000000)
        } else {
            None
        }
    }

    /// Microseconds from `other` to `self`; nothing when `other` is later.
    pub fn duration_since_as_micros(&self, other: &Self) -> (r: Option<u128>)
        ensures
            r is Some <==> self.spec_nanos() >= other.spec_nanos(),
            r is Some ==> r.unwrap() == (self.spec_nanos() - other.spec_nanos()) as u128 / 1000,
    {
        if self.nanos >= other.nanos {
            Some((self.nanos - other.nanos) / 1000)
        } else {
            None
        }
    }

    /// Nanoseconds from `other` to `self`; nothing when `other` is later.
    pub fn duration_since_as_nanos(&self, other: &Self) -> (r: Option<u128>)
        ensures
            r is Some <==> self.spec_nanos() >= other.spec_nanos(),
            r is Some ==> r.unwrap() == (self.spec_nanos() - other.spec_nanos()) as u128,
    {
        if self.nanos >= other.nanos {
            Some(self.nanos - other.nanos)
        } else {
            None
        }
    }
}

} // verus!
