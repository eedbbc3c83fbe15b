//! Wall-clock readings, taken on trust from the `chrono` crate.
//!
//! The system clock is read exactly once per call, through
//! `SystemTime`, and chrono's value is built from that one reading
//! with `DateTime::from_timestamp`, which returns `None` instead of
//! panicking; a pre-epoch or out-of-range reading falls back to the
//! epoch instant. The library's functions therefore never panic,
//! whatever the clock says and however it jumps. Beyond that, the
//! clock's value is unknowable: every caller's contract holds
//! whatever instant came back.
use vstd::prelude::*;

verus! {

/// Relies on chrono's `DateTime::from_timestamp` and
/// `DateTime::timestamp`, which chrono documents as round-tripping:
/// the current Unix time in whole seconds. The one clock reading is
/// a non-negative duration since the epoch, so the result is never
/// negative, and neither is the fallback.
#[verifier::external_body]
pub(crate) fn utc_now_unix() -> (r: i64)
    ensures
        r >= 0,
{
    match std::time::SystemTime::now().duration_since(std::time::UNIX_EPOCH) {
        Ok(d) => match chrono::DateTime::from_timestamp(d.as_secs() as i64, d.subsec_nanos()) {
            Some(t) => t.timestamp(),
            None => 0,
        },
        Err(_) => 0,
    }
}

/// Relies on chrono's `DateTime::from_timestamp` and its
/// `format("%Y%m%d%H%M%S")`: the current UTC instant written as a
/// compact stamp. For any instant from the epoch on, the year is
/// written zero-padded — four digits plain, or five and more behind
/// one leading `+` sign — and every other field as two digits: at
/// least fourteen characters, all digits after an optional first
/// `+`.
#[verifier::external_body]
pub(crate) fn utc_now_compact() -> (r: String)
    ensures
        r@.len() >= 14,
        '0' <= r@[0] <= '9' || r@[0] == '+',
        forall|i: int| 1 <= i < r@.len() ==> '0' <= #[trigger] r@[i] <= '9',
{
    let instant = match std::time::SystemTime::now().duration_since(std::time::UNIX_EPOCH) {
        Ok(d) => chrono::DateTime::from_timestamp(d.as_secs() as i64, d.subsec_nanos()),
        Err(_) => None,
    };
    match instant {
        Some(t) => t.format("%Y%m%d%H%M%S").to_string(),
        None => chrono::DateTime::UNIX_EPOCH.format("%Y%m%d%H%M%S").to_string(),
    }
}

} // verus!
