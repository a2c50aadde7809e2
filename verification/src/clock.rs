//! Wall-clock timestamps for the label edit history: whole seconds since the
//! UNIX epoch, written in decimal.

use std::time::{Duration, SystemTime, SystemTimeError, UNIX_EPOCH};
use vstd::prelude::*;
use crate::text::{decimal, u64_to_decimal};

verus! {

#[verifier::external_type_specification]
#[verifier::external_body]
pub struct ExSystemTime(SystemTime);

#[verifier::external_type_specification]
#[verifier::external_body]
pub struct ExSystemTimeError(SystemTimeError);

/// `SystemTime::now`: the current wall-clock time. It depends on the moment of
/// the call, so nothing is promised of it.
#[verifier::external_body]
fn system_now() -> SystemTime {
    SystemTime::now()
}

/// `SystemTime::duration_since(UNIX_EPOCH)`: the time elapsed since the epoch,
/// or an error when the clock stands before it. Which of the two comes depends
/// on the clock, so nothing is promised.
#[verifier::external_body]
fn since_unix_epoch(t: &SystemTime) -> Result<Duration, SystemTimeError> {
    t.duration_since(UNIX_EPOCH)
}

/// `Duration::as_secs`: the whole seconds of a duration. The duration is
/// opaque here, so nothing is stated of the number.
#[verifier::external_body]
fn whole_seconds(d: &Duration) -> u64 {
    d.as_secs()
}

/// Timestamp text of a clock reading: the decimal whole seconds since the
/// UNIX epoch, or "0" when the clock stood before the epoch (`None`).
pub fn timestamp_text(secs: Option<u64>) -> (r: String)
    ensures
        r@ == timestamp_text_spec(secs),
{
    match secs {
        Some(n) => u64_to_decimal(n),
        None => u64_to_decimal(0),
    }
}

/// The current time as decimal whole seconds since the UNIX epoch ("0" when
/// the clock stands before the epoch).
pub fn now_timestamp() -> (r: String)
    ensures
        exists|secs: Option<u64>| r@ == #[trigger] timestamp_text_spec(secs),
{
    let now = system_now();
    let secs: Option<u64> = match since_unix_epoch(&now) {
        Ok(d) => Some(whole_seconds(&d)),
        Err(_) => None,
    };
    timestamp_text(secs)
}

/// What `timestamp_text` gives for a clock reading.
pub open spec fn timestamp_text_spec(secs: Option<u64>) -> Seq<char> {
    decimal(
        match secs {
            Some(n) => n as nat,
            None => 0nat,
        },
    )
}

} // verus!
