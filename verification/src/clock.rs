//! Wall-clock reading for the human-readable transaction timestamps.

use vstd::prelude::*;

verus! {

/// Relies on chrono's `From<SystemTime>` conversion and
/// `DateTime::format`: reads the wall clock and renders it as the
/// ledger's timestamp pair — a full timestamp and a date, both
/// human-readable. The conversion is total (a clock before the epoch
/// still converts), and nothing is claimed of the strings: the clock may
/// return anything.
#[verifier::external_body]
pub(crate) fn now_strings() -> (r: (String, String)) {
    let now: chrono::DateTime<chrono::Utc> = std::time::SystemTime::now().into();
    let time = now.format("%-m/%-d/%Y, %l:%M:%S %p UTC").to_string();
    let date = now.format("%-m/%-d/%Y").to_string();
    (time, date)
}

} // verus!
