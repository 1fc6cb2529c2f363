//! Time as the library needs it: seconds since the Unix epoch.
use vstd::prelude::*;

verus! {

/// The Unix time that chrono reads from a UTC date and time written as
/// `YYYY-MM-DD HH:MM:SS`, or `None` where it reads none.
pub uninterp spec fn utc_seconds(year: int, month: int, day: int, hour: int, minute: int, second: int) -> Option<int>;

/// Relies on `chrono::NaiveDateTime::parse_from_str` with the format
/// `%Y-%m-%d %H:%M:%S` and on `DateTime::timestamp` of its UTC reading: the
/// Unix time of the date and time written out, or `None` where chrono refuses it.
#[verifier::external_body]
pub(crate) fn utc_timestamp(year: i32, month: u32, day: u32, hour: u32, minute: u32, second: u32) -> (r: Option<i64>)
    ensures
        r is Some <==> utc_seconds(year as int, month as int, day as int, hour as int, minute as int, second as int) is Some,
        r matches Some(t) ==> utc_seconds(year as int, month as int, day as int, hour as int, minute as int, second as int) == Some(t as int),
{
    let text = format!("{:04}-{:02}-{:02} {:02}:{:02}:{:02}", year, month, day, hour, minute, second);
    match chrono::NaiveDateTime::parse_from_str(&text, "%Y-%m-%d %H:%M:%S") {
        Ok(dt) => Some(dt.and_utc().timestamp()),
        Err(_) => None,
    }
}

/// Relies on `std::time::SystemTime::now`: the current time in whole seconds
/// since the Unix epoch, zero for a clock set before it.
#[verifier::external_body]
pub(crate) fn unix_now() -> (r: u64) {
    match std::time::SystemTime::now().duration_since(std::time::UNIX_EPOCH) {
        Ok(d) => d.as_secs(),
        Err(_) => 0,
    }
}

} // verus!
