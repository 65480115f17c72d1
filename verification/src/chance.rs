//! The draws that synthetic rows are made of, and the calendar that turns an
//! instant into a date. The functions here are taken on trust from the
//! crates that provide them; the contracts say what their sources and
//! documentation promise.
use chrono::Datelike;
use fake::Fake;
use rand::Rng;
use vstd::prelude::*;

verus! {

/// The calendar date, as year, month and day, on which the instant written
/// in `stamp` falls for a clock that is `offset_seconds` ahead of UTC;
/// nothing where `stamp` does not write an instant or no clock is that far
/// from UTC.
pub uninterp spec fn calendar_date_at(stamp: Seq<char>, offset_seconds: i32) -> Option<
    (i32, u32, u32),
>;

/// Draws an integer with `rand`'s `Rng::gen_range` on the thread's generator.
/// The draw lies in the half-open range; an empty range is not admitted.
/// The generator is seeded by the system: on a machine that gives it no
/// entropy the call panics, whatever the arguments.
#[verifier::external_body]
pub(crate) fn random_in(low: i32, high: i32) -> (drawn: i32)
    requires
        low < high,
    ensures
        low <= drawn < high,
{
    rand::thread_rng().gen_range(low..high)
}

/// Draws an English first name with `fake`'s `FirstName` faker. Nothing is
/// claimed of the name.
#[verifier::external_body]
pub(crate) fn random_first_name() -> (name: String) {
    fake::faker::name::raw::FirstName(fake::locales::EN).fake::<String>()
}

/// The first year in which a drawn instant can fall.
pub const INSTANT_YEAR_LOW: i32 = 1677;

/// The last year in which a drawn instant can fall.
pub const INSTANT_YEAR_HIGH: i32 = 2262;

/// The text writes an instant that has a calendar date on every clock less
/// than a day from UTC, in a year within the bounds of drawn instants.
pub open spec fn writes_drawn_instant(stamp: Seq<char>) -> bool {
    forall|offset_seconds: i32|
        -86_400 < offset_seconds < 86_400 ==> {
            &&& (#[trigger] calendar_date_at(stamp, offset_seconds)) matches Some(date)
            &&& INSTANT_YEAR_LOW <= date.0 <= INSTANT_YEAR_HIGH
        }
}

/// Draws an instant, as text, with `fake`'s `DateTime` faker. The faker
/// takes a count of nanoseconds around 1970 that fits 64 bits, which lies
/// between September 1677 and April 2262, and writes it as `chrono` writes
/// and reads an instant. So on every clock less than a day from UTC the
/// text has a calendar date, in a year from 1677 to 2262.
#[verifier::external_body]
pub(crate) fn random_instant() -> (stamp: String)
    ensures
        writes_drawn_instant(stamp@),
{
    fake::faker::chrono::raw::DateTime(fake::locales::EN).fake::<String>()
}

/// Reads an instant with `chrono`'s parser for `DateTime<Utc>`, moves it to
/// the clock that `FixedOffset::east_opt` makes with `DateTime::with_timezone`,
/// and takes year, month and day with `Datelike`. The date is a function of
/// the two arguments; `chrono` numbers months from 1 to 12 and days from 1
/// to 31.
#[verifier::external_body]
pub(crate) fn local_calendar_date(stamp: &str, offset_seconds: i32) -> (date: Option<
    (i32, u32, u32),
>)
    ensures
        date == calendar_date_at(stamp@, offset_seconds),
        date matches Some((_, month, day)) ==> 1 <= month <= 12 && 1 <= day <= 31,
{
    let zone = chrono::FixedOffset::east_opt(offset_seconds)?;
    let instant = stamp.parse::<chrono::DateTime<chrono::Utc>>().ok()?;
    let local = instant.with_timezone(&zone);
    Some((local.year(), local.month(), local.day()))
}

} // verus!
