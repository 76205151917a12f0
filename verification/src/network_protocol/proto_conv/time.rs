//! Points in time.

use crate::network_protocol::proto;
use crate::network_protocol::types::Utc;
use vstd::prelude::*;

verus! {

#[verifier::external_type_specification]
#[verifier::external_body]
pub struct ExComponentRange(near_primitives::time::error::ComponentRange);

/// Why a timestamp was rejected: it lies outside the years that the
/// calendar covers.
pub type ParseTimestampError = near_primitives::time::error::ComponentRange;

/// The first second of the year -9999.
pub const MIN_SECONDS: i64 = -377_705_116_800;

/// The last second of the year 9999.
pub const MAX_SECONDS: i64 = 253_402_300_799;

pub const NANOS_PER_SECOND: i128 = 1_000_000_000;

/// Whether a count of seconds since the Unix epoch falls in a year from
/// -9999 to 9999.
pub open spec fn in_range(seconds: int) -> bool {
    MIN_SECONDS <= seconds <= MAX_SECONDS
}

/// The nanoseconds since the Unix epoch that a wire timestamp stands for.
pub open spec fn unix_nanos(x: proto::Timestamp) -> int {
    x.seconds * NANOS_PER_SECOND + x.nanos
}

/// `OffsetDateTime::from_unix_timestamp_nanos` of the `time` crate, read
/// back with `unix_timestamp` and `nanosecond`. As built here, without the
/// crate's `large-dates` feature, it accepts the timestamps whose whole
/// seconds, rounded down, fall in a year from -9999 to 9999, and the
/// point in time it gives has those seconds and the rest as nanoseconds.
#[verifier::external_body]
fn utc_from_unix_nanos(nanos: i128) -> (res: Result<(i64, u32), near_primitives::time::error::ComponentRange>)
    ensures
        res is Ok == in_range(nanos as int / NANOS_PER_SECOND as int),
        res matches Ok(t) ==> t.0 == nanos as int / NANOS_PER_SECOND as int && t.1 == nanos as int
            % NANOS_PER_SECOND as int,
{
    match near_primitives::time::Utc::from_unix_timestamp_nanos(nanos) {
        Ok(t) => Ok((t.unix_timestamp(), t.nanosecond())),
        Err(e) => Err(e),
    }
}

/// Reads a point in time from its wire form. The nanoseconds of the wire
/// form may be negative or exceed a second: they are carried into the
/// seconds.
pub fn utc_from_proto(x: &proto::Timestamp) -> (res: Result<Utc, ParseTimestampError>)
    ensures
        res is Ok == in_range(unix_nanos(*x) / NANOS_PER_SECOND as int),
        res matches Ok(t) ==> {
            &&& t.seconds == unix_nanos(*x) / NANOS_PER_SECOND as int
            &&& t.nanos == unix_nanos(*x) % NANOS_PER_SECOND as int
            &&& t.wf()
        },
{
    let nanos: i128 = (x.seconds as i128) * NANOS_PER_SECOND + (x.nanos as i128);
    match utc_from_unix_nanos(nanos) {
        Ok(t) => Ok(Utc { seconds: t.0, nanos: t.1 }),
        Err(e) => Err(e),
    }
}

/// The wire form of a point in time.
pub fn utc_to_proto(x: &Utc) -> (p: proto::Timestamp)
    requires
        x.nanos < 1_000_000_000,
    ensures
        p.seconds == x.seconds,
        p.nanos == x.nanos,
{
    proto::Timestamp { seconds: x.seconds, nanos: x.nanos as i32 }
}

/// A point in time that was written to the wire reads back as it was.
pub proof fn lemma_nanos_round_trip(x: Utc)
    requires
        x.nanos < 1_000_000_000,
    ensures
        unix_nanos(proto::Timestamp { seconds: x.seconds, nanos: x.nanos as i32 })
            / NANOS_PER_SECOND as int == x.seconds,
        unix_nanos(proto::Timestamp { seconds: x.seconds, nanos: x.nanos as i32 })
            % NANOS_PER_SECOND as int == x.nanos,
{
    let n = x.seconds * 1_000_000_000 + x.nanos;
    assert(n / 1_000_000_000 == x.seconds && n % 1_000_000_000 == x.nanos) by (nonlinear_arith)
        requires
            n == x.seconds * 1_000_000_000 + x.nanos,
            0 <= x.nanos < 1_000_000_000,
    ;
}

} // verus!
