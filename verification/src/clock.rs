use vstd::prelude::*;

use std::time::{Duration, SystemTime};

verus! {

#[verifier::external_type_specification]
#[verifier::external_body]
pub struct ExSystemTime(SystemTime);

/// The system clock's current time, by `SystemTime::now`. Nothing is claimed of it: it
/// depends on the moment of the call.
#[verifier::external_body]
fn system_now() -> SystemTime {
    SystemTime::now()
}

/// The time from the Unix epoch to `t`, by `SystemTime::duration_since`; nothing when `t`
/// lies before the epoch. Nothing is claimed of which: it depends on the clock.
#[verifier::external_body]
fn since_epoch(t: &SystemTime) -> Option<Duration> {
    t.duration_since(std::time::UNIX_EPOCH).ok()
}

/// The whole milliseconds of a duration, by `Duration::as_millis`. Nothing is claimed of the
/// number: a duration is opaque here.
#[verifier::external_body]
fn whole_millis(d: &Duration) -> u128 {
    d.as_millis()
}

/// The milliseconds from the Unix epoch to now, cut to 64 bits, or 0 when the clock stands
/// before the epoch.
pub(crate) fn current_time_millis() -> i64 {
    match since_epoch(&system_now()) {
        Some(d) => {
            let ms = whole_millis(&d);
            #[verifier::truncate]
            (ms as i64)
        },
        None => 0,
    }
}

} // verus!
