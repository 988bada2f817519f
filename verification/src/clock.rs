//! Reading the system clock as microseconds since the Unix epoch.
use vstd::prelude::*;
use std::time::{Duration, SystemTime, UNIX_EPOCH};

verus! {

#[verifier::external_type_specification]
#[verifier::external_body]
pub struct ExSystemTime(SystemTime);

/// Calls `SystemTime::now`. The time read depends on the machine: nothing is claimed.
#[verifier::external_body]
fn system_now() -> SystemTime {
    SystemTime::now()
}

/// Calls `SystemTime::duration_since` with the Unix epoch; `None` stands for
/// its error, which it returns when `t` lies before the epoch. Nothing is
/// claimed of the duration.
#[verifier::external_body]
fn since_unix_epoch(t: &SystemTime) -> Option<Duration> {
    match t.duration_since(UNIX_EPOCH) {
        Ok(d) => Some(d),
        Err(_) => None,
    }
}

/// Calls `Duration::as_micros`: the whole microseconds of `d`. Nothing is
/// claimed of a duration that Verus cannot see into.
#[verifier::external_body]
fn whole_micros(d: &Duration) -> u128 {
    d.as_micros()
}

/// The system clock in microseconds since the Unix epoch, cut to 64 bits;
/// 0 when the clock reads a time before the epoch.
pub(crate) fn now_micros() -> u64 {
    let now = system_now();
    match since_unix_epoch(&now) {
        Some(d) => {
            let m = whole_micros(&d);
            #[verifier::truncate]
            (m as u64)
        },
        None => 0,
    }
}

} // verus!
