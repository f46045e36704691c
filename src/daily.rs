//! The word of the day: the day's offset from the first day of the daily
//! list picks a line of that list.

use crate::words::{daily_word, lines_of};
use vstd::prelude::*;

verus! {

/// A calendar date, as year, month (1 to 12) and day of the month.
#[derive(Clone, Copy, Debug, PartialEq, Eq, Structural)]
pub struct CalendarDate {
    pub year: i32,
    pub month: u32,
    pub day: u32,
}

/// The first day of the daily list: 7 January 2022 is line 0.
pub const EPOCH_YEAR: i32 = 2022;
pub const EPOCH_MONTH: u32 = 1;
pub const EPOCH_DAY: u32 = 7;

/// A date as plain numbers.
pub open spec fn date_key(d: CalendarDate) -> (int, int, int) {
    (d.year as int, d.month as int, d.day as int)
}

/// The first day of the daily list as plain numbers.
pub open spec fn epoch_key() -> (int, int, int) {
    (EPOCH_YEAR as int, EPOCH_MONTH as int, EPOCH_DAY as int)
}

/// Whole days from the first date to the second, `None` where either is
/// not a date of the calendar.
pub uninterp spec fn day_span(dates: ((int, int, int), (int, int, int))) -> Option<int>;

/// Relies on chrono's `NaiveDate::signed_duration_since` (with
/// `NaiveDate::from_ymd_opt` and `TimeDelta::num_days` to convert): the
/// whole days from `from` to `to`, `None` where either is not a valid date.
#[verifier::external_body]
fn days_between(from: &CalendarDate, to: &CalendarDate) -> (r: Option<i64>)
    ensures
        r is Some <==> day_span((date_key(*from), date_key(*to))) is Some,
        r is Some ==> r->0 as int == day_span((date_key(*from), date_key(*to)))->0,
{
    let a = chrono::NaiveDate::from_ymd_opt(from.year, from.month, from.day)?;
    let b = chrono::NaiveDate::from_ymd_opt(to.year, to.month, to.day)?;
    Some(b.signed_duration_since(a).num_days())
}

/// The line of the daily list for a day `days` after the first one.
pub open spec fn index_for_days(days: int) -> Option<usize> {
    if 0 <= days <= usize::MAX {
        Some(days as usize)
    } else {
        None
    }
}

/// The line of the daily list for a day `days` after the first one; `None`
/// before the first day.
pub fn index_from_days(days: i64) -> (r: Option<usize>)
    ensures
        r == index_for_days(days as int),
{
    if days < 0 {
        None
    } else if days as u64 > usize::MAX as u64 {
        None
    } else {
        Some(days as usize)
    }
}

/// The line of the daily list for `today`.
pub fn daily_word_index(today: &CalendarDate) -> (r: Option<usize>)
    ensures
        r == match day_span((epoch_key(), date_key(*today))) {
            Some(d) => index_for_days(d),
            None => None,
        },
{
    let epoch = CalendarDate { year: EPOCH_YEAR, month: EPOCH_MONTH, day: EPOCH_DAY };
    match days_between(&epoch, today) {
        Some(days) => index_from_days(days),
        None => None,
    }
}

/// The word of the day from the daily list `words`, one word per line.
pub fn word_of_the_day(words: &str, today: &CalendarDate) -> (r: Option<Vec<char>>)
    ensures
        ({
            let index = match day_span((epoch_key(), date_key(*today))) {
                Some(d) => index_for_days(d),
                None => None,
            };
            &&& r is Some <==> index is Some && index->0 < lines_of(words@).len()
            &&& r is Some ==> r->0@ == lines_of(words@)[index->0 as int]
        }),
{
    match daily_word_index(today) {
        Some(index) => daily_word(words, index),
        None => None,
    }
}

} // verus!
