//! Instants and their textual forms.
//!
//! An instant is a count of seconds since 1970-01-01 00:00:00 UTC. The
//! calendar arithmetic is chrono's; the functions here only bound what is
//! handed to it.

use vstd::prelude::*;
use vstd::string::*;
use chrono::{DateTime, Local, Utc};
use crate::pages::STAMP_FORMAT;

verus! {

/// The first second of the year 0.
pub const FIRST_SECOND: i64 = -62_167_219_200;

/// The last second of the year 9999.
pub const LAST_SECOND: i64 = 253_402_300_799;

/// Whether `seconds` falls in the years 0 through 9999, which is as far as
/// the date of RFC 2822 reaches.
pub open spec fn in_calendar(seconds: i64) -> bool {
    FIRST_SECOND <= seconds <= LAST_SECOND
}

/// The date and time of `seconds` in UTC as RFC 2822 writes it, such as
/// `Thu, 1 Jan 1970 00:00:00 +0000`.
pub uninterp spec fn rfc2822_of(seconds: i64) -> Seq<char>;

/// The current time, from chrono's `Utc::now` and `DateTime::timestamp`.
/// Nothing is claimed about the reading. `Utc::now` does not return where
/// the system clock stands before 1970.
#[verifier::external_body]
pub(crate) fn unix_now() -> i64 {
    Utc::now().timestamp()
}

/// chrono's `DateTime::from_timestamp` followed by `to_rfc2822`. The text
/// depends on the instant alone. Outside the years 0 through 9999 chrono
/// refuses to write the date, so those instants are not admitted.
#[verifier::external_body]
pub(crate) fn rfc2822(seconds: i64) -> (text: String)
    requires
        in_calendar(seconds),
    ensures
        text@ == rfc2822_of(seconds),
{
    DateTime::from_timestamp(seconds, 0).unwrap().to_rfc2822()
}

/// The date and time of `seconds` on this machine's clock face, written as
/// `format` lays it out: chrono's `DateTime::from_timestamp`,
/// `with_timezone(&Local)` and `format`. The text depends on the time zone
/// that the machine is set to, so nothing is claimed about it. The instants
/// admitted are those of the years 0 through 9999, which chrono can hold
/// whatever the zone, and the one layout admitted is that of a listing,
/// which chrono can write; on a machine whose time zone data chrono cannot
/// use, the conversion does not return.
#[verifier::external_body]
pub(crate) fn local_stamp(seconds: i64, format: &str) -> (text: String)
    requires
        in_calendar(seconds),
        format@ == STAMP_FORMAT@,
{
    DateTime::from_timestamp(seconds, 0).unwrap().with_timezone(&Local).format(format).to_string()
}

/// Whether `seconds` falls in the years 0 through 9999.
pub fn is_in_calendar(seconds: i64) -> (inside: bool)
    ensures
        inside == in_calendar(seconds),
{
    FIRST_SECOND <= seconds && seconds <= LAST_SECOND
}

/// The RFC 2822 form of an instant, where it has one.
pub fn format_date(seconds: i64) -> (text: Option<String>)
    ensures
        match text {
            Some(t) => in_calendar(seconds) && t@ == rfc2822_of(seconds),
            None => !in_calendar(seconds),
        },
{
    if is_in_calendar(seconds) {
        Some(rfc2822(seconds))
    } else {
        None
    }
}

} // verus!
