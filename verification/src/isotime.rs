//! Instants written as `2026-08-17T17:31:42Z`, and read back.
//!
//! Everything the monitor publishes carries its instant in this form, so the writer and the reader
//! stand side by side here and are proved to agree.

use crate::text;
use crate::time::SystemTime;
use vstd::prelude::*;

verus! {

// --- The calendar ------------------------------------------------------------------------------

/// Whether a year has a twenty-ninth of February.
pub open spec fn is_leap(year: int) -> bool {
    (year % 4 == 0 && year % 100 != 0) || year % 400 == 0
}

/// How many days a month has, and none for a month there is not.
pub open spec fn month_days(year: int, month: int) -> int {
    if month == 1 || month == 3 || month == 5 || month == 7 || month == 8 || month == 10 || month
        == 12 {
        31
    } else if month == 4 || month == 6 || month == 9 || month == 11 {
        30
    } else if month == 2 {
        if is_leap(year) {
            29
        } else {
            28
        }
    } else {
        0
    }
}

/// Whether year, month and day name a day of the calendar.
pub open spec fn is_date(year: int, month: int, day: int) -> bool {
    1 <= month <= 12 && 1 <= day <= month_days(year, month)
}

/// The leap years from year 1 up to and including `year`, counted backwards below it.
pub open spec fn leap_years_through(year: int) -> int {
    year / 4 - year / 100 + year / 400
}

/// The days from 1970-01-01 to the first of January of a year.
pub open spec fn year_start(year: int) -> int {
    365 * (year - 1970) + leap_years_through(year - 1) - leap_years_through(1969)
}

/// The days of a year that lie before a month.
pub open spec fn month_start(year: int, month: int) -> int
    decreases month,
{
    if month <= 1 {
        0
    } else {
        month_start(year, month - 1) + month_days(year, month - 1)
    }
}

/// The days from 1970-01-01 to a date.
pub open spec fn day_number(year: int, month: int, day: int) -> int {
    year_start(year) + month_start(year, month) + day - 1
}

proof fn lemma_month_starts(year: int)
    ensures
        month_start(year, 1) == 0,
        month_start(year, 2) == 31,
        month_start(year, 3) == 31 + month_days(year, 2),
        month_start(year, 4) == 62 + month_days(year, 2),
        month_start(year, 5) == 92 + month_days(year, 2),
        month_start(year, 6) == 123 + month_days(year, 2),
        month_start(year, 7) == 153 + month_days(year, 2),
        month_start(year, 8) == 184 + month_days(year, 2),
        month_start(year, 9) == 215 + month_days(year, 2),
        month_start(year, 10) == 245 + month_days(year, 2),
        month_start(year, 11) == 276 + month_days(year, 2),
        month_start(year, 12) == 306 + month_days(year, 2),
        month_start(year, 13) == 337 + month_days(year, 2),
{
    reveal_with_fuel(month_start, 14);
}

proof fn lemma_year_length(year: int)
    ensures
        year_start(year + 1) == year_start(year) + 365 + (if is_leap(year) {
            1int
        } else {
            0int
        }),
{
}

proof fn lemma_years_in_order(earlier: int, later: int)
    requires
        earlier < later,
    ensures
        year_start(earlier) + 365 <= year_start(later),
        is_leap(earlier) ==> year_start(earlier) + 366 <= year_start(later),
    decreases later - earlier,
{
    lemma_year_length(later - 1);
    if earlier + 1 < later {
        lemma_years_in_order(earlier, later - 1);
    }
}

/// Two dates with the same day number are the same date.
pub proof fn lemma_dates_are_told_apart(
    year: int,
    month: int,
    day: int,
    other_year: int,
    other_month: int,
    other_day: int,
)
    requires
        is_date(year, month, day),
        is_date(other_year, other_month, other_day),
        day_number(year, month, day) == day_number(other_year, other_month, other_day),
    ensures
        year == other_year,
        month == other_month,
        day == other_day,
{
    lemma_month_starts(year);
    lemma_month_starts(other_year);
    if year < other_year {
        lemma_years_in_order(year, other_year);
    } else if other_year < year {
        lemma_years_in_order(other_year, year);
    }
}

/// Division that rounds down, for a positive divisor.
fn floor_div(value: i128, by: i128) -> (quotient: i128)
    requires
        by > 0,
        value >= -0x4000_0000_0000_0000_0000_0000_0000_0000,
    ensures
        quotient == value as int / by as int,
{
    if value >= 0 {
        ((value as u128) / (by as u128)) as i128
    } else {
        let below: u128 = (-(value + 1)) as u128;
        let steps: u128 = below / (by as u128);
        proof {
            let b = by as int;
            let r = below as int % b;
            assert(below as int == b * (below as int / b) + r) by (nonlinear_arith)
                requires
                    b > 0,
                    r == below as int % b,
            ;
            assert(value == b * (-(steps as int) - 1) + (b - 1 - r)) by (nonlinear_arith)
                requires
                    below as int == b * (steps as int) + r,
                    below as int == -(value as int) - 1,
            ;
            assert(value as int / b == -(steps as int) - 1) by (nonlinear_arith)
                requires
                    b > 0,
                    0 <= r < b,
                    value == b * (-(steps as int) - 1) + (b - 1 - r),
            ;
            assert(steps <= below) by (nonlinear_arith)
                requires
                    below as int == b * (steps as int) + r,
                    b > 0,
                    r >= 0,
            ;
        }
        -(steps as i128) - 1
    }
}

fn is_leap_year(year: i64) -> (leap: bool)
    ensures
        leap == is_leap(year as int),
{
    let year: i128 = year as i128;
    let fours: i128 = floor_div(year, 4);
    let hundreds: i128 = floor_div(year, 100);
    let cycles: i128 = floor_div(year, 400);
    (fours * 4 == year && hundreds * 100 != year) || cycles * 400 == year
}

fn days_in_month(year: i64, month: i64) -> (days: i64)
    ensures
        days == month_days(year as int, month as int),
{
    if month == 1 || month == 3 || month == 5 || month == 7 || month == 8 || month == 10 || month
        == 12 {
        31
    } else if month == 4 || month == 6 || month == 9 || month == 11 {
        30
    } else if month == 2 {
        if is_leap_year(year) {
            29
        } else {
            28
        }
    } else {
        0
    }
}

/// The days from 1970-01-01 to a date. Counted from the first of March, so that the day a leap year
/// adds comes last.
fn days_from_civil(year: i64, month: i64, day: i64) -> (days: i128)
    requires
        is_date(year as int, month as int, day as int),
    ensures
        days == day_number(year as int, month as int, day as int),
        -0x1_0000_0000_0000_0000_0000 <= days <= 0x1_0000_0000_0000_0000_0000,
{
    let shifted: i128 = if month <= 2 {
        year as i128 - 1
    } else {
        year as i128
    };
    let era: i128 = floor_div(shifted, 400);
    let year_of_era: i128 = shifted - era * 400;
    let months: i128 = if month > 2 {
        month as i128 - 3
    } else {
        month as i128 + 9
    };
    assert(0 <= year_of_era < 400);
    let day_of_year: i128 = floor_div(153 * months + 2, 5) + day as i128 - 1;
    let day_of_era: i128 = year_of_era * 365 + floor_div(year_of_era, 4) - floor_div(
        year_of_era,
        100,
    ) + day_of_year;
    let days: i128 = era * 146_097 + day_of_era - 719_468;
    proof {
        lemma_month_starts(year as int);
        let s = shifted as int;
        assert(s / 4 == 100 * (era as int) + (year_of_era as int) / 4);
        assert(s / 100 == 4 * (era as int) + (year_of_era as int) / 100);
        assert(era as int * 146_097 + year_of_era * 365 + year_of_era as int / 4
            - year_of_era as int / 100 == 365 * s + leap_years_through(s));
        if month > 2 {
            lemma_year_length(year as int);
        }
    }
    days
}

/// Centuries, runs of four years and single years behind an era count the days of those years, and
/// the last day of four years is there only in a leap year.
proof fn lemma_year_of_era(era: int, century: int, four: int, single: int, in_four: int)
    requires
        0 <= century <= 3,
        0 <= four <= 24,
        0 <= single <= 3,
        0 <= in_four <= 1_460,
        in_four == 1_460 && four == 24 ==> century == 3,
        in_four == 1_460 ==> single == 3,
    ensures
        ({
            let year = era * 400 + century * 100 + four * 4 + single;
            &&& 365 * year + leap_years_through(year) == era * 146_097 + century * 36_524 + four
                * 1_461 + single * 365
            &&& in_four == 1_460 ==> is_leap(year + 1)
        }),
{
    let year = era * 400 + century * 100 + four * 4 + single;
    assert(year / 400 == era);
    assert(year / 100 == 4 * era + century);
    assert(year / 4 == 100 * era + 25 * century + four);
}

/// The date of a day counted from the first of March, for a year that begins there.
proof fn lemma_day_of_march_year(march_year: int, day_of_year: int)
    requires
        0 <= day_of_year <= 365,
        day_of_year == 365 ==> is_leap(march_year + 1),
    ensures
        ({
            let months = (5 * day_of_year + 2) / 153;
            let day = day_of_year - (153 * months + 2) / 5 + 1;
            let month = if months < 10 {
                months + 3
            } else {
                months - 9
            };
            let year = if month <= 2 {
                march_year + 1
            } else {
                march_year
            };
            &&& 0 <= months <= 11
            &&& is_date(year, month, day)
            &&& day_number(year, month, day) == 365 * march_year + leap_years_through(march_year)
                + day_of_year - 719_468
        }),
{
    let months = (5 * day_of_year + 2) / 153;
    lemma_month_starts(march_year);
    lemma_month_starts(march_year + 1);
    lemma_year_length(march_year);
    assert(0 <= months <= 11);
}

/// The date that lies `days` after 1970-01-01.
fn civil_from_days(days: i64) -> (date: (i64, i64, i64))
    requires
        -0x1_0000_0000_0000 <= days <= 0x1_0000_0000_0000,
    ensures
        is_date(date.0 as int, date.1 as int, date.2 as int),
        day_number(date.0 as int, date.1 as int, date.2 as int) == days,
{
    let shifted: i128 = days as i128 + 719_468;
    let era: i128 = floor_div(shifted, 146_097);
    let day_of_era: i128 = shifted - era * 146_097;
    assert(0 <= day_of_era < 146_097);
    let century: i128 = if day_of_era >= 3 * 36_524 {
        3
    } else {
        floor_div(day_of_era, 36_524)
    };
    let in_century: i128 = day_of_era - century * 36_524;
    let four: i128 = floor_div(in_century, 1_461);
    let in_four: i128 = in_century - four * 1_461;
    let single: i128 = if in_four >= 3 * 365 {
        3
    } else {
        floor_div(in_four, 365)
    };
    let day_of_year: i128 = in_four - single * 365;
    let year_of_era: i128 = century * 100 + four * 4 + single;
    let march_year: i128 = year_of_era + era * 400;
    assert(0 <= in_century <= 36_524);
    assert(0 <= four <= 24);
    assert(0 <= in_four <= 1_460);
    assert(0 <= single <= 3);
    assert(0 <= day_of_year <= 365);
    assert(-0x1_0000_0000_0000 <= era <= 0x1_0000_0000_0000);
    let months: i128 = floor_div(5 * day_of_year + 2, 153);
    let day: i128 = day_of_year - floor_div(153 * months + 2, 5) + 1;
    let month: i128 = if months < 10 {
        months + 3
    } else {
        months - 9
    };
    let year: i128 = if month <= 2 {
        march_year + 1
    } else {
        march_year
    };
    proof {
        lemma_year_of_era(era as int, century as int, four as int, single as int, in_four as int);
        lemma_day_of_march_year(march_year as int, day_of_year as int);
    }
    (year as i64, month as i64, day as i64)
}

// --- Instants as whole seconds -----------------------------------------------------------------

/// The whole seconds from the epoch to an instant, a part of a second dropped towards the epoch, as
/// far as 64 bits count them.
pub open spec fn whole_seconds(time: SystemTime) -> int {
    let seconds = if time.nanos >= 0 {
        time.nanos as int / 1_000_000_000
    } else {
        -((-(time.nanos as int)) / 1_000_000_000)
    };
    if seconds > i64::MAX {
        i64::MAX as int
    } else if seconds < i64::MIN {
        i64::MIN as int
    } else {
        seconds
    }
}

/// The whole seconds from the epoch to an instant.
pub fn unix_seconds(time: SystemTime) -> (seconds: i64)
    ensures
        seconds == whole_seconds(time),
{
    if time.nanos >= 0 {
        let size: u128 = (time.nanos as u128) / 1_000_000_000;
        if size > i64::MAX as u128 {
            i64::MAX
        } else {
            size as i64
        }
    } else {
        let below: u128 = (-(time.nanos + 1)) as u128 + 1;
        let size: u128 = below / 1_000_000_000;
        if size > 0x8000_0000_0000_0000u128 {
            i64::MIN
        } else {
            (-(size as i128)) as i64
        }
    }
}

/// The instant a number of whole seconds from the epoch.
pub fn time_from_unix_seconds(seconds: i64) -> (time: SystemTime)
    ensures
        time.nanos == seconds * 1_000_000_000,
{
    SystemTime { nanos: (seconds as i128) * 1_000_000_000 }
}

/// Whole seconds survive the way into an instant and back.
pub proof fn law_whole_seconds_are_kept(seconds: i64, time: SystemTime)
    requires
        time.nanos == seconds * 1_000_000_000,
    ensures
        whole_seconds(time) == seconds,
{
}

// --- Reading -----------------------------------------------------------------------------------

/// Whether a text is digits and nothing else.
pub open spec fn is_number(text: Seq<char>) -> bool {
    text.len() > 0 && forall|i: int| 0 <= i < text.len() ==> text::is_digit(#[trigger] text[i])
}

/// Whether a text is a year: four digits, or more where the year needs them.
pub open spec fn is_year(text: Seq<char>) -> bool {
    is_number(text) && (text.len() == 4 || (text.len() > 4 && text[0] != '0'))
}

/// Whether a text is any other number of a timestamp: two digits.
pub open spec fn is_pair(text: Seq<char>) -> bool {
    is_number(text) && text.len() == 2
}

/// Whether a text is a part of a second: nothing, or a full stop and digits.
pub open spec fn is_fraction(text: Seq<char>) -> bool {
    text.len() == 0 || (text[0] == '.' && is_number(text.skip(1)))
}

/// The six numbers of a timestamp, in the order they are written, or `None` if the text is not one.
///
/// The text ends in `Z`; a `T` divides date from time of day; each half is three numbers, divided by
/// `-` and by `:`, and every number has as many digits as it is written with. A part of a second may
/// follow, and is dropped.
pub open spec fn fields(text: Seq<char>) -> Option<Seq<int>> {
    if text.len() == 0 || text.last() != 'Z' {
        None
    } else {
        let body = text.drop_last();
        let middle = text::first_at(body, 'T');
        if middle >= body.len() {
            None
        } else {
            let date = text::pieces(body.take(middle), '-');
            let rest = body.skip(middle + 1);
            let stop = text::first_at(rest, '.');
            let time = text::pieces(rest.take(stop), ':');
            if is_fraction(rest.skip(stop)) && date.len() == 3 && time.len() == 3 && is_year(date[0])
                && is_pair(date[1]) && is_pair(date[2]) && is_pair(time[0]) && is_pair(time[1])
                && is_pair(time[2]) && text::integer(date[0]) is Some && text::integer(
                date[1],
            ) is Some && text::integer(date[2]) is Some && text::integer(time[0]) is Some
                && text::integer(time[1]) is Some && text::integer(time[2]) is Some {
                Some(
                    seq![
                        text::integer(date[0])->0,
                        text::integer(date[1])->0,
                        text::integer(date[2])->0,
                        text::integer(time[0])->0,
                        text::integer(time[1])->0,
                        text::integer(time[2])->0,
                    ],
                )
            } else {
                None
            }
        }
    }
}

/// The seconds from the epoch that a timestamp names, or `None` if the text is not one. The day has
/// to exist, and so do hour, minute and second, of which a sixtieth is one.
pub open spec fn instant(text: Seq<char>) -> Option<int> {
    match fields(text) {
        None => None,
        Some(found) => if is_date(found[0], found[1], found[2]) && 0 <= found[3] <= 23 && 0
            <= found[4] <= 59 && 0 <= found[5] <= 60 {
            Some(
                day_number(found[0], found[1], found[2]) * 86_400 + found[3] * 3_600 + found[4] * 60
                    + found[5],
            )
        } else {
            None
        },
    }
}

/// What is said of a text that is not a timestamp.
pub open spec fn malformed(text: Seq<char>) -> Seq<char> {
    text::quoted(text) + " is not a UTC ISO 8601 timestamp"@
}

fn malformed_text(text: &str) -> (words: String)
    ensures
        words@ == malformed(text@),
{
    text::quote(text).concat(" is not a UTC ISO 8601 timestamp")
}

fn all_digits(text: &Vec<char>) -> (all: bool)
    ensures
        all == is_number(text@),
{
    if text.len() == 0 {
        return false;
    }
    let mut next: usize = 0;
    while next < text.len()
        invariant
            next <= text@.len(),
            forall|i: int| 0 <= i < next ==> text::is_digit(#[trigger] text@[i]),
        decreases text@.len() - next,
    {
        let character: char = text[next];
        if !('0' <= character && character <= '9') {
            assert(!text::is_digit(text@[next as int]));
            return false;
        }
        next += 1;
    }
    true
}

/// Three numbers: two digits each, but for a year where the first is one.
fn three_numbers(parts: &Vec<Vec<char>>, dated: bool) -> (numbers: Option<(i64, i64, i64)>)
    ensures
        match numbers {
            Some(found) => {
                &&& parts@.len() == 3
                &&& if dated {
                    is_year(text::views(parts@)[0])
                } else {
                    is_pair(text::views(parts@)[0])
                }
                &&& is_pair(text::views(parts@)[1])
                &&& is_pair(text::views(parts@)[2])
                &&& text::integer(text::views(parts@)[0]) == Some(found.0 as int)
                &&& text::integer(text::views(parts@)[1]) == Some(found.1 as int)
                &&& text::integer(text::views(parts@)[2]) == Some(found.2 as int)
            },
            None => {
                ||| parts@.len() != 3
                ||| if dated {
                    !is_year(text::views(parts@)[0])
                } else {
                    !is_pair(text::views(parts@)[0])
                }
                ||| !is_pair(text::views(parts@)[1])
                ||| !is_pair(text::views(parts@)[2])
                ||| text::integer(text::views(parts@)[0]) is None
                ||| text::integer(text::views(parts@)[1]) is None
                ||| text::integer(text::views(parts@)[2]) is None
            },
        },
{
    if parts.len() != 3 {
        return None;
    }
    if !all_digits(&parts[0]) || !all_digits(&parts[1]) || !all_digits(&parts[2]) {
        return None;
    }
    let fits: bool = if dated {
        parts[0].len() == 4 || (parts[0].len() > 4 && parts[0][0] != '0')
    } else {
        parts[0].len() == 2
    };
    if !fits || parts[1].len() != 2 || parts[2].len() != 2 {
        return None;
    }
    match (text::parse_i64(&parts[0]), text::parse_i64(&parts[1]), text::parse_i64(&parts[2])) {
        (Some(first), Some(second), Some(third)) => Some((first, second, third)),
        _ => None,
    }
}

/// The seconds a timestamp names, as far as the text is one.
fn read(text: &str) -> (seconds: Option<i128>)
    ensures
        match seconds {
            Some(found) => instant(text@) == Some(found as int),
            None => instant(text@) is None,
        },
{
    let all: Vec<char> = text::characters(text);
    if all.len() == 0 || all[all.len() - 1] != 'Z' {
        return None;
    }
    let body: Vec<char> = text::part(&all, 0, all.len() - 1);
    assert(body@ =~= text@.drop_last());
    let middle: usize = text::find(&body, 'T');
    if middle >= body.len() {
        return None;
    }
    let date: Vec<Vec<char>> = text::split(&text::part(&body, 0, middle), '-');
    let rest: Vec<char> = text::part(&body, middle + 1, body.len());
    let stop: usize = text::find(&rest, '.');
    let clock: Vec<Vec<char>> = text::split(&text::part(&rest, 0, stop), ':');
    let fraction: Vec<char> = text::part(&rest, stop, rest.len());
    proof {
        assert(body@.subrange(0, middle as int) =~= body@.take(middle as int));
        assert(rest@ =~= body@.skip(middle + 1));
        assert(rest@.subrange(0, stop as int) =~= rest@.take(stop as int));
        assert(fraction@ =~= rest@.skip(stop as int));
    }
    if fraction.len() > 0 {
        let digits: Vec<char> = text::part(&fraction, 1, fraction.len());
        assert(digits@ =~= fraction@.skip(1));
        if fraction[0] != '.' || !all_digits(&digits) {
            return None;
        }
    }
    let (year, month, day) = match three_numbers(&date, true) {
        Some(found) => found,
        None => {
            return None;
        },
    };
    let (hour, minute, second) = match three_numbers(&clock, false) {
        Some(found) => found,
        None => {
            return None;
        },
    };
    if month < 1 || month > 12 || day < 1 || day > days_in_month(year, month) {
        return None;
    }
    if hour < 0 || hour > 23 || minute < 0 || minute > 59 || second < 0 || second > 60 {
        return None;
    }
    let days: i128 = days_from_civil(year, month, day);
    Some(days * 86_400 + hour as i128 * 3_600 + minute as i128 * 60 + second as i128)
}

/// Reads a timestamp into seconds since the epoch. The instant has to fit in 64 bits.
pub fn unix_seconds_from_iso8601(text: &str) -> (seconds: Result<i64, String>)
    requires
        instant(text@) matches Some(found) ==> i64::MIN <= found <= i64::MAX,
    ensures
        match seconds {
            Ok(found) => instant(text@) == Some(found as int),
            Err(why) => instant(text@) is None && why@ == malformed(text@),
        },
{
    match read(text) {
        Some(found) => Ok(found as i64),
        None => Err(malformed_text(text)),
    }
}

/// Reads a timestamp out of text nobody has vouched for: an instant too far away to count in 64
/// bits is refused like a text that names none.
pub fn checked_unix_seconds(text: &str) -> (seconds: Result<i64, String>)
    ensures
        match seconds {
            Ok(found) => instant(text@) == Some(found as int),
            Err(why) => why@ == malformed(text@) && (instant(text@) matches Some(found) ==> !(
            i64::MIN <= found <= i64::MAX)),
        },
{
    match read(text) {
        Some(found) => if found >= i64::MIN as i128 && found <= i64::MAX as i128 {
            unix_seconds_from_iso8601(text)
        } else {
            Err(malformed_text(text))
        },
        None => Err(malformed_text(text)),
    }
}

// --- Writing -----------------------------------------------------------------------------------

/// A date and a second of the day as a timestamp.
pub open spec fn stamp(year: int, month: int, day: int, second: int) -> Seq<char> {
    text::padded_decimal(year, 4) + "-"@ + text::padded_decimal(month, 2) + "-"@ + text::padded_decimal(day, 2) + "T"@
        + text::padded_decimal(second / 3_600, 2) + ":"@ + text::padded_decimal((second % 3_600) / 60, 2) + ":"@
        + text::padded_decimal(second % 60, 2) + "Z"@
}

/// Whether a text is the timestamp of an instant: the date its day has in the calendar, and its
/// second of that day.
pub open spec fn is_stamp(text: Seq<char>, seconds: int) -> bool {
    exists|year: int, month: int, day: int|
        {
            &&& is_date(year, month, day)
            &&& #[trigger] day_number(year, month, day) == seconds / 86_400
            &&& text == stamp(year, month, day, seconds % 86_400)
        }
}

/// Writes an instant as a timestamp.
pub fn iso8601_from_unix_seconds(seconds: i64) -> (text: String)
    ensures
        is_stamp(text@, seconds as int),
{
    let days: i128 = floor_div(seconds as i128, 86_400);
    let second: i64 = (seconds as i128 - days * 86_400) as i64;
    assert(0 <= second < 86_400);
    let (year, month, day) = civil_from_days(days as i64);
    let hour: i64 = floor_div(second as i128, 3_600) as i64;
    let in_hour: i64 = second - hour * 3_600;
    let minute: i64 = floor_div(in_hour as i128, 60) as i64;
    let in_minute: i64 = in_hour - minute * 60;
    assert(in_minute == second as int % 60);
    let text = text::padded_decimal_of(year, 4).concat("-").concat(
        text::padded_decimal_of(month, 2).as_str(),
    ).concat("-").concat(text::padded_decimal_of(day, 2).as_str()).concat("T").concat(
        text::padded_decimal_of(hour, 2).as_str(),
    ).concat(":").concat(text::padded_decimal_of(minute, 2).as_str()).concat(":").concat(
        text::padded_decimal_of(in_minute, 2).as_str(),
    ).concat("Z");
    assert(text@ == stamp(year as int, month as int, day as int, seconds as int % 86_400));
    assert(day_number(year as int, month as int, day as int) == seconds as int / 86_400);
    text
}

// --- What reading and writing have to do with each other -----------------------------------------

/// A number is written with the digits it is read with.
proof fn lemma_written_in_shape(value: nat)
    ensures
        is_year(text::zero_filled(text::decimal(value), 4)),
        value < 100 ==> is_pair(text::zero_filled(text::decimal(value), 2)),
{
    text::lemma_zero_filled_is_digits(value, 4);
    text::lemma_zero_filled_is_digits(value, 2);
    if value > 0 {
        text::lemma_first_digit(value);
    }
    reveal_with_fuel(text::decimal, 3);
}

/// Three numbers with a mark between them are three pieces, each of which reads as its number.
proof fn lemma_three_pieces(
    first: nat,
    first_width: nat,
    second: nat,
    third: nat,
    mark: char,
    text: Seq<char>,
)
    requires
        !text::is_digit(mark),
        first <= i64::MAX,
        second <= i64::MAX,
        third <= i64::MAX,
        text == text::zero_filled(text::decimal(first), first_width) + seq![mark] + text::zero_filled(
            text::decimal(second),
            2,
        ) + seq![mark] + text::zero_filled(text::decimal(third), 2),
    ensures
        text::pieces(text, mark) == seq![
            text::zero_filled(text::decimal(first), first_width),
            text::zero_filled(text::decimal(second), 2),
            text::zero_filled(text::decimal(third), 2),
        ],
        text::integer(text::pieces(text, mark)[0]) == Some(first as int),
        text::integer(text::pieces(text, mark)[1]) == Some(second as int),
        text::integer(text::pieces(text, mark)[2]) == Some(third as int),
        forall|i: int| 0 <= i < text.len() ==> text::is_digit(#[trigger] text[i]) || text[i] == mark,
{
    let a = text::zero_filled(text::decimal(first), first_width);
    let b = text::zero_filled(text::decimal(second), 2);
    let c = text::zero_filled(text::decimal(third), 2);
    text::lemma_zero_filled_is_digits(first, first_width);
    text::lemma_zero_filled_is_digits(second, 2);
    text::lemma_zero_filled_is_digits(third, 2);
    text::law_numbers_read_as_written(first, first_width, 0x7fff_ffff_ffff_ffff);
    text::law_numbers_read_as_written(second, 2, 0x7fff_ffff_ffff_ffff);
    text::law_numbers_read_as_written(third, 2, 0x7fff_ffff_ffff_ffff);
    text::lemma_one_piece(a, mark);
    text::lemma_one_more_piece(a, mark, b);
    assert(a.push(mark) + b =~= a + seq![mark] + b);
    let two = a + seq![mark] + b;
    text::lemma_one_more_piece(two, mark, c);
    assert(two.push(mark) + c =~= text);
    assert(text::pieces(text, mark) =~= seq![a, b, c]);
}

/// A date and a time of day with a `T` between them and a `Z` behind read as the two of them.
proof fn lemma_two_halves(
    text: Seq<char>,
    date: Seq<char>,
    clock: Seq<char>,
    year: nat,
    month: nat,
    day: nat,
    hour: nat,
    minute: nat,
    second: nat,
)
    requires
        year <= i64::MAX,
        month < 100,
        day < 100,
        hour < 100,
        minute < 100,
        second < 100,
        text == date + seq!['T'] + clock + seq!['Z'],
        date == text::zero_filled(text::decimal(year), 4) + seq!['-'] + text::zero_filled(
            text::decimal(month),
            2,
        ) + seq!['-'] + text::zero_filled(text::decimal(day), 2),
        clock == text::zero_filled(text::decimal(hour), 2) + seq![':'] + text::zero_filled(
            text::decimal(minute),
            2,
        ) + seq![':'] + text::zero_filled(text::decimal(second), 2),
    ensures
        fields(text) == Some(
            seq![
                year as int,
                month as int,
                day as int,
                hour as int,
                minute as int,
                second as int,
            ],
        ),
{
    let body = text.drop_last();
    assert(body =~= date + seq!['T'] + clock);
    assert(text.last() == 'Z');
    lemma_three_pieces(year, 4, month, day, '-', date);
    lemma_three_pieces(hour, 2, minute, second, ':', clock);
    lemma_written_in_shape(year);
    lemma_written_in_shape(month);
    lemma_written_in_shape(day);
    lemma_written_in_shape(hour);
    lemma_written_in_shape(minute);
    lemma_written_in_shape(second);
    assert forall|i: int| 0 <= i < date.len() implies body[i] != 'T' by {
        assert(body[i] == date[i]);
    }
    assert(body[date.len() as int] == 'T');
    text::lemma_first_at(body, 'T', date.len() as int);
    assert(body.take(date.len() as int) =~= date);
    assert(body.skip(date.len() as int + 1) =~= clock);
    text::lemma_first_at(clock, '.', clock.len() as int);
    assert(clock.take(clock.len() as int) =~= clock);
    assert(clock.skip(clock.len() as int).len() == 0);
}

/// Writing an instant and reading it back gives the instant, for every instant from the year nought
/// on. (A year before it is written with a minus sign, which divides the date in four.)
pub proof fn law_timestamps_round_trip(year: int, month: int, day: int, second: int)
    requires
        is_date(year, month, day),
        0 <= year <= i64::MAX,
        0 <= second < 86_400,
    ensures
        instant(stamp(year, month, day, second)) == Some(
            day_number(year, month, day) * 86_400 + second,
        ),
{
    reveal_strlit("-");
    reveal_strlit("T");
    reveal_strlit(":");
    reveal_strlit("Z");
    assert("-"@ =~= seq!['-']);
    assert("T"@ =~= seq!['T']);
    assert(":"@ =~= seq![':']);
    assert("Z"@ =~= seq!['Z']);
    let hour = second / 3_600;
    let minute = (second % 3_600) / 60;
    let rest = second % 60;
    assert(hour * 3_600 + minute * 60 + rest == second);
    let h = text::zero_filled(text::decimal(hour as nat), 2);
    let m = text::zero_filled(text::decimal(minute as nat), 2);
    let s = text::zero_filled(text::decimal(rest as nat), 2);
    let date = text::zero_filled(text::decimal(year as nat), 4) + seq!['-'] + text::zero_filled(
        text::decimal(month as nat),
        2,
    ) + seq!['-'] + text::zero_filled(text::decimal(day as nat), 2);
    let clock = h + seq![':'] + m + seq![':'] + s;
    let text = stamp(year, month, day, second);
    assert(text == date + seq!['T'] + h + seq![':'] + m + seq![':'] + s + seq!['Z']);
    assert(date + seq!['T'] + h + seq![':'] + m + seq![':'] + s =~= date + seq!['T'] + clock);
    lemma_two_halves(
        text,
        date,
        clock,
        year as nat,
        month as nat,
        day as nat,
        hour as nat,
        minute as nat,
        rest as nat,
    );
}

/// Writes an instant as a timestamp, a part of a second dropped.
pub fn timestamp(time: SystemTime) -> (text: String)
    ensures
        is_stamp(text@, whole_seconds(time)),
{
    iso8601_from_unix_seconds(unix_seconds(time))
}

/// Two timestamps of one instant are the same text.
pub proof fn law_an_instant_has_one_timestamp(one: Seq<char>, other: Seq<char>, seconds: int)
    requires
        is_stamp(one, seconds),
        is_stamp(other, seconds),
    ensures
        one == other,
{
    let (y, m, d) = choose|year: int, month: int, day: int|
        {
            &&& is_date(year, month, day)
            &&& #[trigger] day_number(year, month, day) == seconds / 86_400
            &&& one == stamp(year, month, day, seconds % 86_400)
        };
    let (v, n, e) = choose|year: int, month: int, day: int|
        {
            &&& is_date(year, month, day)
            &&& #[trigger] day_number(year, month, day) == seconds / 86_400
            &&& other == stamp(year, month, day, seconds % 86_400)
        };
    lemma_dates_are_told_apart(y, m, d, v, n, e);
}

/// A timestamp that was written for an instant from the year nought on reads as that instant.
pub proof fn law_what_is_written_reads_back(text: Seq<char>, seconds: int)
    requires
        is_stamp(text, seconds),
        day_number(0, 1, 1) * 86_400 <= seconds <= i64::MAX,
    ensures
        instant(text) == Some(seconds),
{
    let (y, m, d) = choose|year: int, month: int, day: int|
        {
            &&& is_date(year, month, day)
            &&& #[trigger] day_number(year, month, day) == seconds / 86_400
            &&& text == stamp(year, month, day, seconds % 86_400)
        };
    lemma_month_starts(y);
    lemma_month_starts(0);
    if y < 0 {
        lemma_years_in_order(y, 0);
        if y < -1 {
            lemma_years_in_order(y + 1, 0);
        }
        lemma_year_length(y);
        assert(day_number(y, m, d) < day_number(0, 1, 1));
    }
    if y > i64::MAX {
        lemma_year_grows(y);
    }
    law_timestamps_round_trip(y, m, d, seconds % 86_400);
}

proof fn lemma_year_grows(year: int)
    requires
        year >= 1970,
    ensures
        year_start(year) >= 365 * (year - 1970),
{
    assert(leap_years_through(year - 1) >= leap_years_through(1969));
}

} // verus!
