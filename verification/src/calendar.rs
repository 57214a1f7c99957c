//! Calendar days as integers, and the window of days that the activity
//! histogram covers.

use vstd::prelude::*;

verus! {

/// Number of days in the activity histogram: today and the 29 days before it.
pub const WINDOW_DAYS: usize = 30;

/// Number of leading characters of a stored timestamp that hold its date.
pub const DATE_CHARS: usize = 10;

/// The format of the date at the start of a stored timestamp.
pub open spec fn date_format() -> Seq<char> {
    "%Y-%m-%d"@
}

/// The day that `text` denotes when read by `format`, as chrono counts days
/// (1 January of year 1 is day 1), or `None` where chrono rejects the text.
pub uninterp spec fn day_of_text(text: Seq<char>, format: Seq<char>) -> Option<i32>;

/// Calls `chrono::NaiveDate::parse_from_str` and, on success,
/// `chrono::Datelike::num_days_from_ce` on the date. Trusted: the result is
/// what `day_of_text` names. Both calls depend on their arguments alone, and a
/// text that chrono rejects gives `None`.
#[verifier::external_body]
fn parse_day_as(text: &str, format: &str) -> (day: Option<i32>)
    ensures
        day == day_of_text(text@, format@),
{
    chrono::NaiveDate::parse_from_str(text, format).ok().map(
        |date| chrono::Datelike::num_days_from_ce(&date),
    )
}

/// The day number of 1 January 1970, the first day that the clock can give.
pub const EPOCH_DAY: i32 = 719163;

/// The day number of 31 December 9999, the last day whose year is written
/// with four digits.
pub const LAST_FOUR_DIGIT_DAY: i32 = 3652059;

/// The first ten characters of a timestamp, or all of it where it is
/// shorter: the part that holds the date.
pub open spec fn date_prefix(timestamp: Seq<char>) -> Seq<char> {
    if timestamp.len() <= DATE_CHARS {
        timestamp
    } else {
        timestamp.subrange(0, DATE_CHARS as int)
    }
}

/// The offset that ends a timestamp in UTC.
pub open spec fn utc_offset() -> Seq<char> {
    "+00:00"@
}

/// `text` ends with `ending`.
pub open spec fn ends_with(text: Seq<char>, ending: Seq<char>) -> bool {
    text.len() >= ending.len() && text.subrange(text.len() - ending.len(), text.len() as int)
        == ending
}

/// `timestamp` and `today` are one reading of the clock: the day is not
/// before 1970, the timestamp ends with the offset of UTC, and up to the year
/// 9999 the date at the start of the timestamp reads back as the day.
pub open spec fn clock_reading(timestamp: Seq<char>, today: i32) -> bool {
    &&& today >= EPOCH_DAY
    &&& ends_with(timestamp, utc_offset())
    &&& today <= LAST_FOUR_DIGIT_DAY ==> day_of_text(date_prefix(timestamp), date_format())
        == Some(today)
}

/// Calls `chrono::Utc::now` and hands out the instant in two forms: written
/// by `to_rfc3339`, and as the day number of its date in UTC (`naive_utc`,
/// `date`, `num_days_from_ce`). Which instant it is, the clock of the machine
/// says. Trusted, of every instant that chrono returns: it is not before
/// 1970, as chrono panics where the clock stands before that; `to_rfc3339`
/// ends the text with `+00:00` for UTC; and for the years up to 9999 it
/// starts the text with the date as four digits, a hyphen, two digits, a
/// hyphen and two digits, which `parse_from_str` reads back as that date.
#[verifier::external_body]
pub(crate) fn utc_now() -> (now: (String, i32))
    ensures
        clock_reading(now.0@, now.1),
{
    let now = chrono::Utc::now();
    (now.to_rfc3339(), chrono::Datelike::num_days_from_ce(&now.naive_utc().date()))
}

/// Reads a `YYYY-MM-DD` date and returns its day number.
pub fn parse_day(text: &str) -> (day: Option<i32>)
    ensures
        day == day_of_text(text@, date_format()),
{
    parse_day_as(text, "%Y-%m-%d")
}

/// The histogram bucket of `day` as seen from `today`: the number of whole
/// days between them, where that lies in the window.
pub open spec fn bucket_of(today: int, day: int) -> Option<int> {
    if 0 <= today - day < WINDOW_DAYS as int {
        Some(today - day)
    } else {
        None
    }
}

/// Computes the bucket of `day` as seen from `today`. A day after `today` and
/// a day 30 or more days back have no bucket.
pub fn bucket_index(today: i32, day: i32) -> (index: Option<usize>)
    ensures
        bucket_of(today as int, day as int) == match index {
            Some(i) => Some(i as int),
            None => None,
        },
{
    let distance: i64 = today as i64 - day as i64;
    if 0 <= distance && distance < WINDOW_DAYS as i64 {
        Some(distance as usize)
    } else {
        None
    }
}

} // verus!
