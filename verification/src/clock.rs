//! The wall clock, read as time since the unix epoch.
use vstd::prelude::*;

verus! {

/// A point in time of the system clock (`std::time::SystemTime`), carried
/// through unread.
#[verifier::external_type_specification]
#[verifier::external_body]
pub struct ExSystemTime(std::time::SystemTime);

/// The current time of the system clock (`SystemTime::now`). Which time it
/// is, is not stated.
#[verifier::external_body]
fn system_now() -> (t: std::time::SystemTime) {
    std::time::SystemTime::now()
}

/// The time from the unix epoch to `t` (`SystemTime::duration_since` with
/// `UNIX_EPOCH`, its error dropped); `None` when `t` is before the epoch.
/// Nothing more is stated of it.
#[verifier::external_body]
fn since_epoch(t: std::time::SystemTime) -> (r: Option<std::time::Duration>) {
    t.duration_since(std::time::UNIX_EPOCH).ok()
}

/// The whole seconds of `d` (`Duration::as_secs`).
#[verifier::external_body]
fn whole_secs(d: &std::time::Duration) -> (r: u64) {
    d.as_secs()
}

/// The milliseconds of `d` past its whole seconds
/// (`Duration::subsec_millis`), which its documentation puts below one
/// thousand.
#[verifier::external_body]
fn subsec_millis(d: &std::time::Duration) -> (r: u32)
    ensures
        r < 1000,
{
    d.subsec_millis()
}

/// A count of seconds as a signed number, `i64::MAX` when it does not fit.
pub fn secs_as_i64(secs: u64) -> (r: i64)
    ensures
        r == (if secs <= i64::MAX {
            secs as int
        } else {
            i64::MAX as int
        }),
{
    if secs <= i64::MAX as u64 {
        secs as i64
    } else {
        i64::MAX
    }
}

/// The milliseconds in `secs` seconds and `ms` milliseconds, `u64::MAX`
/// when they do not fit.
pub fn millis_as_u64(secs: u64, ms: u32) -> (r: u64)
    requires
        ms < 1000,
    ensures
        r == (if secs * 1000 + ms <= u64::MAX {
            secs * 1000 + ms
        } else {
            u64::MAX as int
        }),
{
    if secs > u64::MAX / 1000 {
        assert(secs * 1000 + ms > u64::MAX) by (nonlinear_arith)
            requires
                secs > u64::MAX / 1000,
        ;
        u64::MAX
    } else {
        assert(secs * 1000 <= u64::MAX) by (nonlinear_arith)
            requires
                secs <= u64::MAX / 1000,
        ;
        let base = secs * 1000;
        if base <= u64::MAX - ms as u64 {
            base + ms as u64
        } else {
            u64::MAX
        }
    }
}

/// The current time in unix seconds: 0 when the clock is before the
/// epoch, `i64::MAX` when it does not fit.
pub fn now_unix() -> (t: i64)
    ensures
        t >= 0,
{
    match since_epoch(system_now()) {
        Some(d) => secs_as_i64(whole_secs(&d)),
        None => 0,
    }
}

/// The current time in unix milliseconds: 0 when the clock is before the
/// epoch, `u64::MAX` when it does not fit.
pub fn now_ms() -> (t: u64) {
    match since_epoch(system_now()) {
        Some(d) => millis_as_u64(whole_secs(&d), subsec_millis(&d)),
        None => 0,
    }
}

} // verus!
