//! Timestamps: microseconds since the Unix epoch (UTC), and the calls into
//! `chrono` that read the clock or render a timestamp.
use chrono::TimeZone;
use std::time::{SystemTime, UNIX_EPOCH};
use vstd::prelude::*;

verus! {

/// The earliest microsecond that `chrono` represents (-262143-01-01T00:00:00Z).
pub const EARLIEST_MICROS: i64 = -8334601228800000000;

/// The latest microsecond that `chrono` represents (+262142-12-31T23:59:59.999999Z).
pub const LATEST_MICROS: i64 = 8210266876799999999;

/// `us` microseconds after the epoch is an instant that `chrono::DateTime<Utc>` represents.
pub open spec fn timestamp_in_range(us: int) -> bool {
    EARLIEST_MICROS <= us <= LATEST_MICROS
}

/// `Utc.timestamp_micros(us).single().is_some()`: whether `chrono` can represent the
/// instant; by chrono's `DateTime::from_timestamp` it can exactly when the date lies
/// between its earliest and latest supported days.
#[verifier::external_body]
pub(crate) fn timestamp_representable(us: i64) -> (res: bool)
    ensures
        res == timestamp_in_range(us as int),
{
    chrono::Utc.timestamp_micros(us).single().is_some()
}

#[verifier::external_type_specification]
#[verifier::external_body]
pub struct ExSystemTime(SystemTime);

/// `SystemTime::now`: a reading of the system clock. Nothing is claimed of its value.
#[verifier::external_body]
fn system_now() -> SystemTime {
    SystemTime::now()
}

/// `SystemTime::duration_since(UNIX_EPOCH)` of a clock reading, in whole microseconds:
/// `Ok` with the time after the epoch, or `Err` with the time before it (the error's
/// `duration`). The reading is opaque, so nothing is claimed of the values.
#[verifier::external_body]
fn micros_from_epoch(t: &SystemTime) -> Result<u128, u128> {
    match t.duration_since(UNIX_EPOCH) {
        Ok(d) => Ok(d.as_micros()),
        Err(e) => Err(e.duration().as_micros()),
    }
}

/// A clock reading `offset` microseconds after (`Ok`) or before (`Err`) the epoch,
/// as a signed count of microseconds.
pub open spec fn signed_offset(offset: Result<u128, u128>) -> int {
    match offset {
        Ok(after) => after as int,
        Err(before) => -(before as int),
    }
}

/// A count of microseconds brought into the range chrono represents: values beyond an
/// end of the range become that end.
pub open spec fn clamped_to_range(us: int) -> int {
    if us < EARLIEST_MICROS {
        EARLIEST_MICROS as int
    } else if us > LATEST_MICROS {
        LATEST_MICROS as int
    } else {
        us
    }
}

/// Microseconds since the epoch of a clock reading given as its offset from the epoch,
/// clamped to the range chrono represents.
pub fn micros_of_offset(offset: Result<u128, u128>) -> (res: i64)
    ensures
        res == clamped_to_range(signed_offset(offset)),
        timestamp_in_range(res as int),
{
    match offset {
        Ok(after) => if after > LATEST_MICROS as u128 {
            LATEST_MICROS
        } else {
            after as i64
        },
        Err(before) => if before > (0 - (EARLIEST_MICROS as i128)) as u128 {
            EARLIEST_MICROS
        } else {
            (0 - (before as i128)) as i64
        },
    }
}

/// The current time in microseconds since the epoch: the system clock's reading (also
/// one before 1970), clamped to the range chrono represents. What the clock reads is
/// not claimed.
pub fn current_micros() -> (res: i64)
    ensures
        timestamp_in_range(res as int),
{
    let now = system_now();
    micros_of_offset(micros_from_epoch(&now))
}

/// What `DateTime::<Utc>::to_rfc3339` prints for the instant `us` microseconds after the epoch.
pub uninterp spec fn rfc3339_text(us: int) -> Seq<char>;

/// `DateTime::<Utc>::to_rfc3339` of the instant `us` microseconds after the epoch.
#[verifier::external_body]
pub(crate) fn to_rfc3339(us: i64) -> (res: String)
    requires
        timestamp_in_range(us as int),
    ensures
        res@ == rfc3339_text(us as int),
{
    chrono::DateTime::from_timestamp_micros(us).unwrap().to_rfc3339()
}

/// Whole seconds from `ts` to `now`, rounded toward zero (`TimeDelta::num_seconds`).
pub open spec fn elapsed_seconds(now: int, ts: int) -> int {
    let d = now - ts;
    if d >= 0 {
        d / 1_000_000
    } else {
        -((-d) / 1_000_000)
    }
}

/// `(now - ts).num_seconds()` for two instants chrono represents.
pub fn seconds_between(now: i64, ts: i64) -> (res: i64)
    requires
        timestamp_in_range(now as int),
        timestamp_in_range(ts as int),
    ensures
        res == elapsed_seconds(now as int, ts as int),
{
    let d = now as i128 - ts as i128;
    if d >= 0 {
        (d / 1_000_000) as i64
    } else {
        (0 - ((0 - d) / 1_000_000)) as i64
    }
}

} // verus!
