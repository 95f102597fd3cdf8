//! The clock of the machine. What it shows is known to no contract.
use vstd::prelude::*;

verus! {

/// The day, as the local time is shown.
pub const DAY: &'static str = "%Y-%m-%d";

/// The day and the time of day, as the local time is shown.
pub const DAY_AND_TIME: &'static str = "%Y-%m-%d %H:%M:%S";

/// `chrono::Utc::now` and its `to_rfc3339`: the time of the call. What time
/// that is depends on the clock.
#[verifier::external_body]
pub(crate) fn now_rfc3339() -> (r: String) {
    chrono::Utc::now().to_rfc3339()
}

/// `chrono::Local::now` and its `format`: the time of the call in the time zone
/// of the machine, in one of two forms. What time that is depends on the clock
/// and the zone.
#[verifier::external_body]
pub(crate) fn local_time(form: &str) -> (r: String)
    requires
        form@ == DAY@ || form@ == DAY_AND_TIME@,
{
    chrono::Local::now().format(form).to_string()
}

} // verus!
