//! The calendar, and timestamps in it.

use crate::isotime;
use crate::text;
use crate::time::SystemTime;
use vstd::prelude::*;

verus! {

/// A year has a leap day if four divides it, unless a hundred does and four hundred does not.
pub proof fn law_which_years_have_a_leap_day(year: int)
    ensures
        isotime::is_date(year, 2, 29) <==> year % 4 == 0 && (year % 100 == 0 ==> year % 400 == 0),
        isotime::is_date(year, 2, 28),
        !isotime::is_date(year, 2, 30),
{
}

/// Every month but the second has thirty or thirty-one days: thirty-one in seven of them.
pub proof fn law_how_long_the_months_are(year: int, month: int)
    requires
        1 <= month <= 12,
        month != 2,
    ensures
        isotime::is_date(year, month, 30),
        isotime::is_date(year, month, 31) <==> (month <= 7 && month % 2 == 1) || (month >= 8 && month
            % 2 == 0),
        !isotime::is_date(year, month, 0),
        !isotime::is_date(year, month, 32),
        !isotime::is_date(year, 13, 1),
        !isotime::is_date(year, 0, 1),
{
}

/// Days are counted from the first of January 1970, one after another: within a month, from the end of a
/// month to the beginning of the next, and from the end of a year to the beginning of the next.
pub proof fn law_days_follow_each_other(year: int, month: int, day: int)
    requires
        1 <= month < 12,
    ensures
        isotime::day_number(1970, 1, 1) == 0,
        isotime::day_number(year, month, day + 1) == isotime::day_number(year, month, day) + 1,
        isotime::day_number(year, month + 1, 1) == isotime::day_number(
            year,
            month,
            isotime::month_days(year, month),
        ) + 1,
        isotime::day_number(year + 1, 1, 1) == isotime::day_number(year, 12, 31) + 1,
{
    assert(isotime::month_start(year, 1) == 0);
    assert(isotime::month_start(1970, 1) == 0);
    lemma_a_year_is_its_months(year);
    lemma_a_year_begins_where_the_last_ended(year);
}

/// The eleven months before the last.
proof fn lemma_a_year_is_its_months(year: int)
    ensures
        isotime::month_start(year, 12) == if isotime::is_leap(year) {
            335int
        } else {
            334int
        },
{
    assert(isotime::month_start(year, 1) == 0);
    assert(isotime::month_start(year, 2) == 31);
    let leap: int = if isotime::is_leap(year) {
        1
    } else {
        0
    };
    assert(isotime::month_start(year, 3) == 59 + leap);
    assert(isotime::month_start(year, 4) == 90 + leap);
    assert(isotime::month_start(year, 5) == 120 + leap);
    assert(isotime::month_start(year, 6) == 151 + leap);
    assert(isotime::month_start(year, 7) == 181 + leap);
    assert(isotime::month_start(year, 8) == 212 + leap);
    assert(isotime::month_start(year, 9) == 243 + leap);
    assert(isotime::month_start(year, 10) == 273 + leap);
    assert(isotime::month_start(year, 11) == 304 + leap);
}

/// A year is as long as the days that it has.
proof fn lemma_a_year_begins_where_the_last_ended(year: int)
    ensures
        isotime::year_start(year + 1) - isotime::year_start(year) == if isotime::is_leap(year) {
            366int
        } else {
            365int
        },
{
    assert(year / 4 - (year - 1) / 4 == if year % 4 == 0 {
        1int
    } else {
        0int
    });
    assert(year / 100 - (year - 1) / 100 == if year % 100 == 0 {
        1int
    } else {
        0int
    });
    assert(year / 400 - (year - 1) / 400 == if year % 400 == 0 {
        1int
    } else {
        0int
    });
    assert(year % 400 == 0 ==> year % 100 == 0);
    assert(year % 100 == 0 ==> year % 4 == 0);
}

/// Whole seconds are the most that fit between the epoch and an instant, before it as after it.
pub proof fn law_whole_seconds_are_cut_towards_the_epoch(time: SystemTime)
    requires
        i64::MIN < isotime::whole_seconds(time) < i64::MAX,
    ensures
        time.nanos >= 0 ==> isotime::whole_seconds(time) * 1_000_000_000 <= time.nanos < (
        isotime::whole_seconds(time) + 1) * 1_000_000_000,
        time.nanos <= 0 ==> (isotime::whole_seconds(time) - 1) * 1_000_000_000 < time.nanos
            <= isotime::whole_seconds(time) * 1_000_000_000,
{
}

/// A timestamp is written year, month, day, hour, minute, second, the last five in two digits at least and
/// the year in four.
pub proof fn law_what_a_timestamp_looks_like(
    year: int,
    month: int,
    day: int,
    hour: int,
    minute: int,
    second: int,
)
    requires
        0 <= hour < 24,
        0 <= minute < 60,
        0 <= second < 60,
    ensures
        isotime::stamp(year, month, day, hour * 3_600 + minute * 60 + second)
            == text::padded_decimal(year, 4) + "-"@ + text::padded_decimal(month, 2) + "-"@
            + text::padded_decimal(day, 2) + "T"@ + text::padded_decimal(hour, 2) + ":"@
            + text::padded_decimal(minute, 2) + ":"@ + text::padded_decimal(second, 2) + "Z"@,
{
    let all = hour * 3_600 + minute * 60 + second;
    assert(all / 3_600 == hour);
    assert(all % 3_600 == minute * 60 + second);
    assert((all % 3_600) / 60 == minute);
    assert(all % 60 == second);
}

/// A text is a timestamp only if it ends in `Z`, divides a date that exists from a time of day by `T`, and
/// the time of day exists: no hour beyond the twenty-third, no minute beyond the fifty-ninth, and no second
/// beyond the sixtieth.
pub proof fn law_what_is_no_timestamp(text: Seq<char>)
    requires
        isotime::instant(text) is Some,
    ensures
        text.len() > 0,
        text.last() == 'Z',
        text.contains('T'),
        isotime::fields(text) matches Some(found) && {
            &&& found.len() == 6
            &&& isotime::is_date(found[0], found[1], found[2])
            &&& 0 <= found[3] < 24
            &&& 0 <= found[4] < 60
            &&& 0 <= found[5] <= 60
            &&& isotime::instant(text) == Some(
                isotime::day_number(found[0], found[1], found[2]) * 86_400 + found[3] * 3_600
                    + found[4] * 60 + found[5],
            )
        },
{
    let body = text.drop_last();
    let middle = text::first_at(body, 'T');
    super::text::law_the_first_place_is_the_first(body, 'T');
    assert(body[middle] == text[middle]);
}

/// A later instant has a later time: of two timestamps with the same date, the one with the later hour,
/// minute or second is later, and one day is as long as any other.
pub proof fn law_every_day_is_as_long(one: Seq<char>, other: Seq<char>)
    requires
        isotime::instant(one) is Some,
        isotime::instant(other) is Some,
    ensures
        ({
            let a = isotime::fields(one)->0;
            let b = isotime::fields(other)->0;
            &&& (a[0] == b[0] && a[1] == b[1] && a[2] == b[2]) ==> isotime::instant(other)->0
                - isotime::instant(one)->0 == (b[3] - a[3]) * 3_600 + (b[4] - a[4]) * 60 + (b[5]
                - a[5])
            &&& (a[0] == b[0] && a[1] == b[1] && a[3] == b[3] && a[4] == b[4] && a[5] == b[5])
                ==> isotime::instant(other)->0 - isotime::instant(one)->0 == (b[2] - a[2]) * 86_400
        }),
{
}

/// What is said of a text that is no timestamp quotes it.
pub proof fn law_a_malformed_timestamp_is_quoted(text: Seq<char>)
    ensures
        text::contains_text(isotime::malformed(text), text::quoted(text)),
{
    let words = " is not a UTC ISO 8601 timestamp"@;
    super::text::law_what_stands_in_a_text(Seq::empty(), text::quoted(text), words);
    assert(isotime::malformed(text) =~= Seq::<char>::empty() + text::quoted(text) + words);
}

} // verus!
