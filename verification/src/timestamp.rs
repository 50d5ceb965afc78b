//! The timestamp codec: a timezone-naive instant to and from a signed
//! 64-bit count of milliseconds since the epoch, interpreted as UTC.
//!
//! Encoding truncates the sub-millisecond component; decoding rejects any
//! millisecond count whose whole-second part falls outside the representable
//! span of [`Timestamp`] with a [`CodecError::RangeError`].

use crate::error::CodecError;
use vstd::arithmetic::div_mod::lemma_fundamental_div_mod_converse;
use vstd::prelude::*;

verus! {

/// Smallest whole-second value a `Timestamp` can hold.
pub const MIN_TIMESTAMP_SECS: i64 = -8_000_000_000_000;

/// Largest whole-second value a `Timestamp` can hold.
pub const MAX_TIMESTAMP_SECS: i64 = 8_000_000_000_000;

/// Nanoseconds in one second.
pub const NANOS_PER_SEC: u32 = 1_000_000_000;

/// Nanoseconds in one millisecond.
pub const NANOS_PER_MILLI: u32 = 1_000_000;

/// A timezone-naive instant: whole seconds since the epoch plus a
/// nanosecond offset within that second, interpreted as UTC at the wire
/// boundary. Sub-second detail below one millisecond survives in memory but
/// not across the wire.
#[derive(Debug, Clone, Copy, PartialEq, Eq, Structural)]
pub struct Timestamp {
    /// Whole seconds since the epoch; negative values lie before it.
    pub secs: i64,
    /// Nanoseconds past `secs`, always in `[0, NANOS_PER_SEC)`.
    pub nanos: u32,
}

impl Timestamp {
    /// The instant is within the representable span and the nanosecond
    /// offset stays inside one second.
    pub open spec fn wf(self) -> bool {
        &&& MIN_TIMESTAMP_SECS <= self.secs <= MAX_TIMESTAMP_SECS
        &&& self.nanos < NANOS_PER_SEC
    }

    /// Builds an instant from its parts, rejecting values outside the
    /// representable span.
    pub fn new(secs: i64, nanos: u32) -> (r: Result<Timestamp, CodecError>)
        ensures
            r is Ok <==> (Timestamp { secs, nanos }).wf(),
            r matches Ok(t) ==> t == (Timestamp { secs, nanos }),
            r matches Err(e) ==> e == CodecError::RangeError,
    {
        if MIN_TIMESTAMP_SECS <= secs && secs <= MAX_TIMESTAMP_SECS && nanos < NANOS_PER_SEC {
            Ok(Timestamp { secs, nanos })
        } else {
            Err(CodecError::RangeError)
        }
    }
}

/// The millisecond count an instant encodes to: its whole seconds scaled to
/// milliseconds plus its whole milliseconds within the second.
pub open spec fn millis_of(t: Timestamp) -> int {
    t.secs * 1000 + t.nanos as int / NANOS_PER_MILLI as int
}

/// The millisecond counts that decode to an instant: those whose
/// whole-second part lies in the representable span.
pub open spec fn millis_in_range(ms: int) -> bool {
    MIN_TIMESTAMP_SECS as int * 1000 <= ms <= MAX_TIMESTAMP_SECS as int * 1000 + 999
}

/// The instant an in-range millisecond count decodes to: whole seconds by
/// flooring division, the leftover milliseconds as the nanosecond offset.
pub open spec fn timestamp_of_millis(ms: int) -> Timestamp {
    Timestamp {
        secs: (ms / 1000) as i64,
        nanos: ((ms % 1000) * NANOS_PER_MILLI as int) as u32,
    }
}

/// The given instant with its sub-millisecond component zeroed: what a trip
/// across the wire preserves.
pub open spec fn truncated_to_millis(t: Timestamp) -> Timestamp {
    Timestamp {
        secs: t.secs,
        nanos: ((t.nanos as int / NANOS_PER_MILLI as int) * NANOS_PER_MILLI as int) as u32,
    }
}

/// Encodes an instant as milliseconds since the epoch, in UTC. Total on
/// every representable instant.
pub fn serialize(t: &Timestamp) -> (ms: i64)
    requires
        t.wf(),
    ensures
        ms as int == millis_of(*t),
{
    t.secs * 1000 + (t.nanos / NANOS_PER_MILLI) as i64
}

/// Decodes milliseconds since the epoch, in UTC, back into an instant.
/// Returns `RangeError` exactly on the counts no instant can hold, and
/// never panics.
pub fn deserialize(ms: i64) -> (r: Result<Timestamp, CodecError>)
    ensures
        r is Ok <==> millis_in_range(ms as int),
        r matches Ok(t) ==> t == timestamp_of_millis(ms as int) && t.wf(),
        r matches Err(e) ==> e == CodecError::RangeError,
{
    if ms < MIN_TIMESTAMP_SECS * 1000 || ms > MAX_TIMESTAMP_SECS * 1000 + 999 {
        return Err(CodecError::RangeError);
    }
    let offset: u64 = (ms - MIN_TIMESTAMP_SECS * 1000) as u64;
    let q: u64 = offset / 1000;
    let rem: u64 = offset % 1000;
    let secs: i64 = MIN_TIMESTAMP_SECS + q as i64;
    let nanos: u32 = (rem as u32) * NANOS_PER_MILLI;
    proof {
        lemma_fundamental_div_mod_converse(ms as int, 1000, secs as int, rem as int);
    }
    Ok(Timestamp { secs, nanos })
}

/// Law: encoding an instant and decoding the result yields the same instant
/// truncated to millisecond precision, and the encoded count is always
/// decodable.
pub proof fn lemma_timestamp_round_trip(t: Timestamp)
    requires
        t.wf(),
    ensures
        millis_in_range(millis_of(t)),
        timestamp_of_millis(millis_of(t)) == truncated_to_millis(t),
{
    let sub: int = t.nanos as int / NANOS_PER_MILLI as int;
    lemma_fundamental_div_mod_converse(
        t.nanos as int,
        NANOS_PER_MILLI as int,
        sub,
        t.nanos as int % NANOS_PER_MILLI as int,
    );
    assert(0 <= sub <= 999) by {
        lemma_fundamental_div_mod_converse(999_999_999, 1_000_000, 999, 999_999);
        vstd::arithmetic::div_mod::lemma_div_is_ordered(
            t.nanos as int,
            999_999_999,
            NANOS_PER_MILLI as int,
        );
        vstd::arithmetic::div_mod::lemma_div_pos_is_pos(t.nanos as int, NANOS_PER_MILLI as int);
    }
    lemma_fundamental_div_mod_converse(millis_of(t), 1000, t.secs as int, sub);
}

} // verus!
