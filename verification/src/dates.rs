//! Event dates: a calendar day and a time of day to the minute, in UTC, and
//! how they are shown to users ("Sunday, 16th of July at 15:00").
use vstd::prelude::*;
use chrono::Datelike;
use chrono::Timelike;
use chrono::TimeZone;

use crate::markdown::{lemma_no_reserved_concat, no_reserved, push_str};

verus! {

broadcast use vstd::string::group_string_axioms;

// ---------------------------------------------------------------------
// names for what chrono computes
// ---------------------------------------------------------------------

/// What chrono's `TimeZone::datetime_from_str` parses out of `text` with
/// `format`, in UTC, as (year, month, day, hour, minute); `None` where it
/// refuses the text.
pub uninterp spec fn parsed_utc(text: Seq<char>, format: Seq<char>) -> Option<(i32, u32, u32, u32, u32)>;

// ---------------------------------------------------------------------
// the model
// ---------------------------------------------------------------------

/// The English name of a month, as chrono writes it for `%B`.
pub open spec fn month_name(month: u32) -> Seq<char> {
    if month == 1 {
        "January"@
    } else if month == 2 {
        "February"@
    } else if month == 3 {
        "March"@
    } else if month == 4 {
        "April"@
    } else if month == 5 {
        "May"@
    } else if month == 6 {
        "June"@
    } else if month == 7 {
        "July"@
    } else if month == 8 {
        "August"@
    } else if month == 9 {
        "September"@
    } else if month == 10 {
        "October"@
    } else if month == 11 {
        "November"@
    } else {
        "December"@
    }
}

/// The years that chrono's calendar holds.
pub open spec fn is_calendar_year(year: int) -> bool {
    -262143 <= year <= 262142
}

/// A leap year of the proleptic Gregorian calendar.
pub open spec fn is_leap_year(year: int) -> bool {
    year % 4 == 0 && (year % 100 != 0 || year % 400 == 0)
}

/// The number of days of a month.
pub open spec fn days_in_month(year: int, month: int) -> int {
    if month == 2 {
        if is_leap_year(year) {
            29
        } else {
            28
        }
    } else if month == 4 || month == 6 || month == 9 || month == 11 {
        30
    } else {
        31
    }
}

/// Whether `year-month-day` is a day of chrono's calendar: the proleptic
/// Gregorian calendar, over the years that chrono holds.
pub open spec fn is_calendar_day(year: i32, month: u32, day: u32) -> bool {
    &&& is_calendar_year(year as int)
    &&& 1 <= month <= 12
    &&& 1 <= day <= days_in_month(year as int, month as int)
}

/// The number of days from 1970-01-01 to `year-month-day` (negative before).
pub open spec fn days_from_epoch(year: int, month: int, day: int) -> int {
    let y = if month <= 2 {
        year - 1
    } else {
        year
    };
    let era = y / 400;
    let year_of_era = y - era * 400;
    let month_from_march = (month + 9) % 12;
    let day_of_year = (153 * month_from_march + 2) / 5 + day - 1;
    let day_of_era = year_of_era * 365 + year_of_era / 4 - year_of_era / 100 + day_of_year;
    era * 146097 + day_of_era - 719468
}

/// The English name of the weekday of `year-month-day`, as chrono writes it
/// for `%A`; 1970-01-01 was a Thursday.
pub open spec fn weekday_name(year: i32, month: u32, day: u32) -> Seq<char> {
    let n = (days_from_epoch(year as int, month as int, day as int) + 4) % 7;
    if n == 0 {
        "Sunday"@
    } else if n == 1 {
        "Monday"@
    } else if n == 2 {
        "Tuesday"@
    } else if n == 3 {
        "Wednesday"@
    } else if n == 4 {
        "Thursday"@
    } else if n == 5 {
        "Friday"@
    } else {
        "Saturday"@
    }
}

/// The decimal digit for `n < 10`.
pub open spec fn digit(n: int) -> char {
    if n == 0 {
        '0'
    } else if n == 1 {
        '1'
    } else if n == 2 {
        '2'
    } else if n == 3 {
        '3'
    } else if n == 4 {
        '4'
    } else if n == 5 {
        '5'
    } else if n == 6 {
        '6'
    } else if n == 7 {
        '7'
    } else if n == 8 {
        '8'
    } else {
        '9'
    }
}

/// `n < 100` in decimal, without leading zero.
pub open spec fn decimal(n: int) -> Seq<char> {
    if n < 10 {
        seq![digit(n)]
    } else {
        seq![digit(n / 10), digit(n % 10)]
    }
}

/// `n < 100` in two decimal digits, with a leading zero below ten.
pub open spec fn two_digits(n: int) -> Seq<char> {
    seq![digit(n / 10), digit(n % 10)]
}

/// The English ordinal suffix of a day of the month.
pub open spec fn ordinal_suffix(day: u32) -> Seq<char> {
    if day == 1 || day == 21 || day == 31 {
        seq!['s', 't']
    } else if day == 2 || day == 22 {
        seq!['n', 'd']
    } else if day == 3 || day == 23 {
        seq!['r', 'd']
    } else {
        seq!['t', 'h']
    }
}

/// A day of the month as an ordinal: "1st", "2nd", "3rd", "4th", ... "31st".
pub open spec fn ordinal_day(day: u32) -> Seq<char> {
    decimal(day as int) + ordinal_suffix(day)
}

/// A time of day as chrono writes it for `%H:%M`: "09:05".
pub open spec fn clock(hour: u32, minute: u32) -> Seq<char> {
    two_digits(hour as int) + seq![':'] + two_digits(minute as int)
}

/// A date and time as (year, month, day, hour, minute).
pub type DateTuple = (i32, u32, u32, u32, u32);

/// What every `EventDate` satisfies: the day is a day of chrono's calendar
/// and the time is a time of day.
pub open spec fn is_valid_date(v: DateTuple) -> bool {
    &&& is_calendar_day(v.0, v.1, v.2)
    &&& 1 <= v.1 <= 12
    &&& 1 <= v.2 <= 31
    &&& v.3 < 24
    &&& v.4 < 60
}

/// How a date is shown to users: "Sunday, 16th of July at 15:00".
pub open spec fn beautified(v: DateTuple) -> Seq<char> {
    weekday_name(v.0, v.1, v.2) + ", "@ + ordinal_day(v.2) + " of "@ + month_name(v.1)
        + " at "@ + clock(v.3, v.4)
}

/// Whether `a` comes strictly after `b`: dates are ordered by year, then
/// month, day, hour and minute.
pub open spec fn later_than(a: DateTuple, b: DateTuple) -> bool {
    ||| a.0 > b.0
    ||| a.0 == b.0 && a.1 > b.1
    ||| a.0 == b.0 && a.1 == b.1 && a.2 > b.2
    ||| a.0 == b.0 && a.1 == b.1 && a.2 == b.2 && a.3 > b.3
    ||| a.0 == b.0 && a.1 == b.1 && a.2 == b.2 && a.3 == b.3 && a.4 > b.4
}

/// A date and a time to the minute, in UTC. It always names a real day of
/// the calendar and a real time of day.
#[derive(Clone, Copy, Debug, PartialEq, Eq, Structural)]
pub struct EventDate {
    year: i32,
    month: u32,
    day: u32,
    hour: u32,
    minute: u32,
}

impl View for EventDate {
    type V = DateTuple;

    closed spec fn view(&self) -> DateTuple {
        (self.year, self.month, self.day, self.hour, self.minute)
    }
}

impl EventDate {
    #[verifier::type_invariant]
    spec fn valid(self) -> bool {
        is_valid_date(self@)
    }

    /// The date `year-month-day hour:minute`, where that is a real day and
    /// time of day; `None` where it is not.
    pub fn new(year: i32, month: u32, day: u32, hour: u32, minute: u32) -> (r: Option<EventDate>)
        ensures
            r is Some <==> (is_calendar_day(year, month, day) && hour < 24 && minute < 60),
            r matches Some(d) ==> d@ == (year, month, day, hour, minute),
    {
        if hour < 24 && minute < 60 && date_exists(year, month, day) {
            Some(EventDate { year, month, day, hour, minute })
        } else {
            None
        }
    }

    pub fn year(&self) -> (r: i32)
        ensures
            r == self@.0,
            is_valid_date(self@),
    {
        proof {
            use_type_invariant(self);
        }
        self.year
    }

    pub fn month(&self) -> (r: u32)
        ensures
            r == self@.1,
            is_valid_date(self@),
    {
        proof {
            use_type_invariant(self);
        }
        self.month
    }

    pub fn day(&self) -> (r: u32)
        ensures
            r == self@.2,
            is_valid_date(self@),
    {
        proof {
            use_type_invariant(self);
        }
        self.day
    }

    pub fn hour(&self) -> (r: u32)
        ensures
            r == self@.3,
            is_valid_date(self@),
    {
        proof {
            use_type_invariant(self);
        }
        self.hour
    }

    pub fn minute(&self) -> (r: u32)
        ensures
            r == self@.4,
            is_valid_date(self@),
    {
        proof {
            use_type_invariant(self);
        }
        self.minute
    }

    /// Whether `self` comes strictly after `other`.
    pub fn is_after(&self, other: &EventDate) -> (r: bool)
        ensures
            r == later_than(self@, other@),
    {
        if self.year != other.year {
            self.year > other.year
        } else if self.month != other.month {
            self.month > other.month
        } else if self.day != other.day {
            self.day > other.day
        } else if self.hour != other.hour {
            self.hour > other.hour
        } else {
            self.minute > other.minute
        }
    }
}

// ---------------------------------------------------------------------
// trusted: chrono
// ---------------------------------------------------------------------

/// `chrono::NaiveDate::from_ymd_opt(year, month, day).is_some()`: whether the
/// day exists in chrono's proleptic Gregorian calendar, whose years run from
/// -262143 to 262142.
#[verifier::external_body]
fn date_exists(year: i32, month: u32, day: u32) -> (r: bool)
    ensures
        r == is_calendar_day(year, month, day),
{
    chrono::NaiveDate::from_ymd_opt(year, month, day).is_some()
}

/// chrono's `NaiveDate::format` on an existing day, for `%A` (the English
/// name of the weekday) or `%B` (the English name of the month).
#[verifier::external_body]
fn format_day(year: i32, month: u32, day: u32, format: &str) -> (r: String)
    requires
        is_calendar_day(year, month, day),
        format@ == "%A"@ || format@ == "%B"@,
    ensures
        format@ == "%A"@ ==> r@ == weekday_name(year, month, day),
        format@ == "%B"@ ==> r@ == month_name(month),
{
    chrono::NaiveDate::from_ymd_opt(year, month, day).unwrap().format(format).to_string()
}

/// chrono's `NaiveTime::format` with `%H:%M`: hour and minute in two digits
/// each, with a colon between.
#[verifier::external_body]
fn format_time(hour: u32, minute: u32, format: &str) -> (r: String)
    requires
        hour < 24,
        minute < 60,
        format@ == "%H:%M"@,
    ensures
        r@ == clock(hour, minute),
{
    chrono::NaiveTime::from_hms_opt(hour, minute, 0).unwrap().format(format).to_string()
}

/// chrono's `Utc.datetime_from_str(text, format)`, taken to the minute: the
/// date and time it reads from `text`, or `None` where it refuses the text.
/// That what chrono gives is a real date and time of day (the invariant of
/// `EventDate`) is believed, not checked.
#[verifier::external_body]
fn parse_utc(text: &str, format: &str) -> (r: Option<EventDate>)
    ensures
        r is Some <==> parsed_utc(text@, format@) is Some,
        r matches Some(d) ==> d@ == parsed_utc(text@, format@)->0,
{
    #[allow(deprecated)]
    let parsed = chrono::Utc.datetime_from_str(text, format);
    match parsed {
        Ok(dt) => Some(
            EventDate {
                year: dt.year(),
                month: dt.month(),
                day: dt.day(),
                hour: dt.hour(),
                minute: dt.minute(),
            },
        ),
        Err(_) => None,
    }
}

/// `chrono::Utc::now()`, taken to the minute. Nothing is known of it but
/// that it is a real date and time of day (the invariant of `EventDate`,
/// believed, not checked).
#[verifier::external_body]
pub(crate) fn now_utc() -> (r: EventDate) {
    let now = chrono::Utc::now();
    EventDate {
        year: now.year(),
        month: now.month(),
        day: now.day(),
        hour: now.hour(),
        minute: now.minute(),
    }
}

// ---------------------------------------------------------------------
// verified functions
// ---------------------------------------------------------------------

/// The decimal digit for `n < 10`.
pub fn digit_char(n: u32) -> (c: char)
    requires
        n < 10,
    ensures
        c == digit(n as int),
{
    match n {
        0 => '0',
        1 => '1',
        2 => '2',
        3 => '3',
        4 => '4',
        5 => '5',
        6 => '6',
        7 => '7',
        8 => '8',
        _ => '9',
    }
}

/// A day of the month as an English ordinal: "1st", "22nd", "13th".
pub fn ordinal_day_text(day: u32) -> (r: String)
    requires
        1 <= day <= 31,
    ensures
        r@ == ordinal_day(day),
{
    let mut out = String::new();
    if day >= 10 {
        crate::markdown::push_char(&mut out, digit_char(day / 10));
    }
    crate::markdown::push_char(&mut out, digit_char(day % 10));
    assert(out@ == decimal(day as int));
    if day == 1 || day == 21 || day == 31 {
        crate::markdown::push_char(&mut out, 's');
        crate::markdown::push_char(&mut out, 't');
    } else if day == 2 || day == 22 {
        crate::markdown::push_char(&mut out, 'n');
        crate::markdown::push_char(&mut out, 'd');
    } else if day == 3 || day == 23 {
        crate::markdown::push_char(&mut out, 'r');
        crate::markdown::push_char(&mut out, 'd');
    } else {
        crate::markdown::push_char(&mut out, 't');
        crate::markdown::push_char(&mut out, 'h');
    }
    out
}

/// Shows a date to users: weekday, ordinal day, month and time, as in
/// "Sunday, 16th of July at 15:00".
pub fn beautify_date(ts: &EventDate) -> (r: String)
    ensures
        r@ == beautified(ts@),
        no_reserved(r@),
{
    proof {
        use_type_invariant(ts);
    }
    let mut out = format_day(ts.year, ts.month, ts.day, "%A");
    push_str(&mut out, ", ");
    let day = ordinal_day_text(ts.day);
    push_str(&mut out, day.as_str());
    push_str(&mut out, " of ");
    let month = format_day(ts.year, ts.month, ts.day, "%B");
    push_str(&mut out, month.as_str());
    push_str(&mut out, " at ");
    let time = format_time(ts.hour, ts.minute, "%H:%M");
    push_str(&mut out, time.as_str());
    proof {
        let w = weekday_name(ts.year, ts.month, ts.day);
        lemma_weekday_name_has_no_reserved(ts.year, ts.month, ts.day);
        lemma_separators_have_no_reserved();
        lemma_ordinal_day_has_no_reserved(ts.day);
        lemma_month_name_has_no_reserved(ts.month);
        lemma_clock_has_no_reserved(ts.hour, ts.minute);
        lemma_no_reserved_concat(w, ", "@);
        lemma_no_reserved_concat(w + ", "@, ordinal_day(ts.day));
        lemma_no_reserved_concat(w + ", "@ + ordinal_day(ts.day), " of "@);
        lemma_no_reserved_concat(w + ", "@ + ordinal_day(ts.day) + " of "@, month_name(ts.month));
        lemma_no_reserved_concat(
            w + ", "@ + ordinal_day(ts.day) + " of "@ + month_name(ts.month),
            " at "@,
        );
        lemma_no_reserved_concat(
            w + ", "@ + ordinal_day(ts.day) + " of "@ + month_name(ts.month) + " at "@,
            clock(ts.hour, ts.minute),
        );
    }
    out
}

/// The names of the weekdays hold no reserved character.
pub proof fn lemma_weekday_name_has_no_reserved(year: i32, month: u32, day: u32)
    ensures
        no_reserved(weekday_name(year, month, day)),
{
    reveal_strlit("Sunday");
    reveal_strlit("Monday");
    reveal_strlit("Tuesday");
    reveal_strlit("Wednesday");
    reveal_strlit("Thursday");
    reveal_strlit("Friday");
    reveal_strlit("Saturday");
}

/// The names of the months hold no reserved character.
pub proof fn lemma_month_name_has_no_reserved(month: u32)
    ensures
        no_reserved(month_name(month)),
{
    reveal_strlit("January");
    reveal_strlit("February");
    reveal_strlit("March");
    reveal_strlit("April");
    reveal_strlit("May");
    reveal_strlit("June");
    reveal_strlit("July");
    reveal_strlit("August");
    reveal_strlit("September");
    reveal_strlit("October");
    reveal_strlit("November");
    reveal_strlit("December");
}

/// The words between the parts of a shown date hold no reserved character.
pub proof fn lemma_separators_have_no_reserved()
    ensures
        no_reserved(", "@),
        no_reserved(" of "@),
        no_reserved(" at "@),
{
    reveal_strlit(", ");
    reveal_strlit(" of ");
    reveal_strlit(" at ");
}

/// An ordinal day holds no reserved character.
pub proof fn lemma_ordinal_day_has_no_reserved(day: u32)
    ensures
        no_reserved(ordinal_day(day)),
{
}

/// A time of day holds no reserved character.
pub proof fn lemma_clock_has_no_reserved(hour: u32, minute: u32)
    ensures
        no_reserved(clock(hour, minute)),
{
}

/// Reads an event date written as `YYYY.MM.DD HH:MM` (UTC).
pub fn parse_event_date(text: &str) -> (r: Option<EventDate>)
    ensures
        r is Some <==> parsed_utc(text@, "%Y.%m.%d %H:%M"@) is Some,
        r matches Some(d) ==> d@ == parsed_utc(text@, "%Y.%m.%d %H:%M"@)->0,
{
    parse_utc(text, "%Y.%m.%d %H:%M")
}

// ---------------------------------------------------------------------
// laws
// ---------------------------------------------------------------------

/// The value of a decimal digit character.
pub open spec fn digit_value(c: char) -> int {
    c as int - '0' as int
}

/// Whether every character of `s` is a decimal digit.
pub open spec fn is_numeral(s: Seq<char>) -> bool {
    forall|i: int| 0 <= i < s.len() ==> 0 <= #[trigger] digit_value(s[i]) <= 9
}

/// The number that the decimal digits `s` write.
pub open spec fn numeral_value(s: Seq<char>) -> int
    decreases s.len(),
{
    if s.len() == 0 {
        0
    } else {
        numeral_value(s.drop_last()) * 10 + digit_value(s.last())
    }
}

/// A count of minutes that grows with time: the minutes since year 0 on a
/// calendar whose years have 13 months of 32 days. Real dates never reach
/// its 13th month or 32nd day, so of two real dates the later one always
/// has the larger count.
pub open spec fn minute_count(v: DateTuple) -> int {
    v.0 * 599040 + v.1 * 46080 + v.2 * 1440 + v.3 * 60 + v.4
}

/// The digit characters write their digits.
pub proof fn lemma_digit_value(n: int)
    requires
        0 <= n < 10,
    ensures
        digit_value(digit(n)) == n,
{
}

/// A two-digit number is written with the digits of its tens and its ones.
pub proof fn lemma_two_digits_value(n: int)
    requires
        0 <= n < 100,
    ensures
        two_digits(n).len() == 2,
        is_numeral(two_digits(n)),
        numeral_value(two_digits(n)) == n,
{
    lemma_digit_value(n / 10);
    lemma_digit_value(n % 10);
    let t = two_digits(n);
    assert(t.drop_last().drop_last().len() == 0);
    assert(numeral_value(t.drop_last().drop_last()) == 0);
    assert(t.drop_last().last() == digit(n / 10));
    assert(numeral_value(t.drop_last()) == n / 10);
    assert(t.last() == digit(n % 10));
    assert(numeral_value(t) == (n / 10) * 10 + n % 10);
}

/// A shown time of day writes the hour, a colon and the minute, both in two
/// digits: reading the digits back gives the hour and the minute.
pub proof fn lemma_clock_shows_the_time(hour: u32, minute: u32)
    requires
        hour < 24,
        minute < 60,
    ensures
        clock(hour, minute).len() == 5,
        clock(hour, minute)[2] == ':',
        is_numeral(clock(hour, minute).subrange(0, 2)),
        is_numeral(clock(hour, minute).subrange(3, 5)),
        numeral_value(clock(hour, minute).subrange(0, 2)) == hour,
        numeral_value(clock(hour, minute).subrange(3, 5)) == minute,
{
    lemma_two_digits_value(hour as int);
    lemma_two_digits_value(minute as int);
    let t = clock(hour, minute);
    assert(t.subrange(0, 2) == two_digits(hour as int));
    assert(t.subrange(3, 5) == two_digits(minute as int));
}

/// A shown day of the month starts with the day in decimal, without a
/// leading zero, followed by a two-letter suffix: reading the digits back
/// gives the day.
pub proof fn lemma_ordinal_day_shows_the_day(day: u32)
    requires
        1 <= day <= 31,
    ensures
        ordinal_day(day).len() >= 3,
        is_numeral(ordinal_day(day).subrange(0, ordinal_day(day).len() - 2)),
        numeral_value(ordinal_day(day).subrange(0, ordinal_day(day).len() - 2)) == day,
        ordinal_day(day)[0] != '0',
        ({
            let suffix = ordinal_day(day).subrange(ordinal_day(day).len() - 2, ordinal_day(day).len() as int);
            &&& day % 10 == 1 && day != 11 ==> suffix == seq!['s', 't']
            &&& day % 10 == 2 && day != 12 ==> suffix == seq!['n', 'd']
            &&& day % 10 == 3 && day != 13 ==> suffix == seq!['r', 'd']
            &&& !(day % 10 == 1 && day != 11) && !(day % 10 == 2 && day != 12) && !(day % 10 == 3
                && day != 13) ==> suffix == seq!['t', 'h']
        }),
{
    let t = ordinal_day(day);
    let n = t.len() - 2;
    let digits = t.subrange(0, n);
    assert(digits == decimal(day as int));
    assert(t.subrange(n, t.len() as int) == ordinal_suffix(day));
    if day < 10 {
        lemma_digit_value(day as int);
        assert(digits.drop_last().len() == 0);
        assert(numeral_value(digits.drop_last()) == 0);
        assert(digits.last() == digit(day as int));
    } else {
        lemma_digit_value(day as int / 10);
        lemma_digit_value(day as int % 10);
        assert(digits.drop_last().drop_last().len() == 0);
        assert(numeral_value(digits.drop_last().drop_last()) == 0);
        assert(digits.drop_last().last() == digit(day as int / 10));
        assert(numeral_value(digits.drop_last()) == day as int / 10);
        assert(digits.last() == digit(day as int % 10));
        assert(numeral_value(digits) == (day as int / 10) * 10 + day as int % 10);
    }
}

/// Of two real dates, one is later than the other exactly when more
/// minutes have passed at it: the order of dates is the order of time.
pub proof fn lemma_later_than_is_the_order_of_time(a: DateTuple, b: DateTuple)
    requires
        is_valid_date(a),
        is_valid_date(b),
    ensures
        later_than(a, b) <==> minute_count(a) > minute_count(b),
{
}

/// Being later is a strict total order on real dates: no date is later than
/// itself, of two dates at most one is later than the other, and of two
/// different dates one is.
pub proof fn lemma_later_than_is_a_strict_total_order(a: DateTuple, b: DateTuple, c: DateTuple)
    requires
        is_valid_date(a),
        is_valid_date(b),
        is_valid_date(c),
    ensures
        !later_than(a, a),
        later_than(a, b) ==> !later_than(b, a),
        later_than(a, b) && later_than(b, c) ==> later_than(a, c),
        a != b ==> later_than(a, b) || later_than(b, a),
{
    lemma_later_than_is_the_order_of_time(a, b);
    lemma_later_than_is_the_order_of_time(b, c);
    lemma_later_than_is_the_order_of_time(a, c);
    lemma_later_than_is_the_order_of_time(b, a);
    lemma_later_than_is_the_order_of_time(a, a);
}

/// The day after `year-month-day` in the calendar.
pub open spec fn next_day(year: int, month: int, day: int) -> (int, int, int) {
    if day < days_in_month(year, month) {
        (year, month, day + 1)
    } else if month < 12 {
        (year, month + 1, 1)
    } else {
        (year + 1, 1, 1)
    }
}

/// Shifting a year by whole 400-year eras keeps its remainders by 4, 100
/// and 400.
proof fn lemma_era_shift(e: int, o: int)
    ensures
        (e * 400 + o) % 4 == o % 4,
        (e * 400 + o) % 100 == o % 100,
        (e * 400 + o) % 400 == o % 400,
{
    assert((e * 400 + o) % 4 == o % 4) by (nonlinear_arith);
    assert((e * 400 + o) % 100 == o % 100) by (nonlinear_arith);
    assert((e * 400 + o) % 400 == o % 400) by (nonlinear_arith);
}

/// Within an era, the days of the years before year `o + 1` of the era
/// grow by the length of year `o + 1`.
proof fn lemma_year_length_in_era(o: int)
    requires
        0 <= o < 399,
    ensures
        ((o + 1) * 365 + (o + 1) / 4 - (o + 1) / 100) - (o * 365 + o / 4 - o / 100) == if (o + 1)
            % 4 == 0 && (o + 1) % 100 != 0 {
            366int
        } else {
            365int
        },
{
}

/// The days counted from March 1st of year 0 to March 1st of year `y + 1`,
/// one more than the days of the years up to `y`.
proof fn lemma_year_length(y: int)
    ensures
        ({
            let e0 = y / 400;
            let o0 = y - e0 * 400;
            let e1 = (y + 1) / 400;
            let o1 = (y + 1) - e1 * 400;
            (e1 * 146097 + o1 * 365 + o1 / 4 - o1 / 100) - (e0 * 146097 + o0 * 365 + o0 / 4
                - o0 / 100) == if is_leap_year(y + 1) {
                366int
            } else {
                365int
            }
        }),
{
    let e0 = y / 400;
    let o0 = y - e0 * 400;
    assert(0 <= o0 < 400);
    lemma_era_shift(e0, o0 + 1);
    assert(y + 1 == e0 * 400 + (o0 + 1));
    if o0 == 399 {
        lemma_era_shift(e0 + 1, 0);
        assert(y + 1 == (e0 + 1) * 400 + 0);
        assert((y + 1) / 400 == e0 + 1);
    } else {
        assert((y + 1) / 400 == e0);
        lemma_year_length_in_era(o0);
    }
}

/// The day after a day is counted one day later.
pub proof fn lemma_next_day_is_one_day_later(year: int, month: int, day: int)
    requires
        1 <= month <= 12,
        1 <= day <= days_in_month(year, month),
    ensures
        ({
            let n = next_day(year, month, day);
            days_from_epoch(n.0, n.1, n.2) == days_from_epoch(year, month, day) + 1
        }),
{
    if day < days_in_month(year, month) {
    } else if month == 2 {
        lemma_year_length(year - 1);
    } else if month < 12 {
    } else {
    }
}

/// 1970-01-01 is day 0 of the count, a Thursday.
pub proof fn lemma_epoch_is_a_thursday()
    ensures
        days_from_epoch(1970, 1, 1) == 0,
        weekday_name(1970, 1, 1) == "Thursday"@,
{
}

/// The name of the weekday after the one named `name`.
pub open spec fn next_weekday_name(name: Seq<char>) -> Seq<char> {
    if name == "Sunday"@ {
        "Monday"@
    } else if name == "Monday"@ {
        "Tuesday"@
    } else if name == "Tuesday"@ {
        "Wednesday"@
    } else if name == "Wednesday"@ {
        "Thursday"@
    } else if name == "Thursday"@ {
        "Friday"@
    } else if name == "Friday"@ {
        "Saturday"@
    } else {
        "Sunday"@
    }
}

/// The weekdays follow each other day after day: the day after a day falls
/// on the next weekday.
pub proof fn lemma_weekdays_follow_each_other(year: i32, month: u32, day: u32)
    requires
        is_calendar_day(year, month, day),
        is_calendar_day(next_day(year as int, month as int, day as int).0 as i32, next_day(year as int, month as int, day as int).1 as u32, next_day(year as int, month as int, day as int).2 as u32),
    ensures
        ({
            let n = next_day(year as int, month as int, day as int);
            weekday_name(n.0 as i32, n.1 as u32, n.2 as u32) == next_weekday_name(
                weekday_name(year, month, day),
            )
        }),
{
    let n = next_day(year as int, month as int, day as int);
    lemma_next_day_is_one_day_later(year as int, month as int, day as int);
    assert(n.0 as i32 as int == n.0 && n.1 as u32 as int == n.1 && n.2 as u32 as int == n.2);
    let k = days_from_epoch(year as int, month as int, day as int) + 4;
    assert(days_from_epoch(n.0 as i32 as int, n.1 as u32 as int, n.2 as u32 as int) + 4 == k + 1);
    assert((k + 1) % 7 == (k % 7 + 1) % 7);
    let j = k % 7;
    reveal_strlit("Sunday");
    reveal_strlit("Monday");
    reveal_strlit("Tuesday");
    reveal_strlit("Wednesday");
    reveal_strlit("Thursday");
    reveal_strlit("Friday");
    reveal_strlit("Saturday");
    assert("Sunday"@[0] == 'S' && "Monday"@[0] == 'M' && "Friday"@[0] == 'F');
    assert("Saturday"@[0] == 'S' && "Thursday"@[0] == 'T');
    assert("Sunday"@ != "Monday"@ && "Sunday"@ != "Tuesday"@ && "Sunday"@ != "Wednesday"@
        && "Sunday"@ != "Thursday"@ && "Sunday"@ != "Friday"@);
    if j == 0 {
        assert(weekday_name(year, month, day) == "Sunday"@);
    } else if j == 1 {
        assert(weekday_name(year, month, day) == "Monday"@);
        assert("Monday"@ != "Sunday"@);
    } else if j == 2 {
        assert(weekday_name(year, month, day) == "Tuesday"@);
        assert("Tuesday"@ != "Sunday"@ && "Tuesday"@ != "Monday"@);
    } else if j == 3 {
        assert(weekday_name(year, month, day) == "Wednesday"@);
        assert("Wednesday"@ != "Sunday"@ && "Wednesday"@ != "Monday"@ && "Wednesday"@ != "Tuesday"@);
    } else if j == 4 {
        assert(weekday_name(year, month, day) == "Thursday"@);
        assert("Thursday"@ != "Sunday"@ && "Thursday"@ != "Monday"@ && "Thursday"@ != "Tuesday"@
            && "Thursday"@ != "Wednesday"@);
    } else if j == 5 {
        assert(weekday_name(year, month, day) == "Friday"@);
        assert("Friday"@ != "Sunday"@ && "Friday"@ != "Monday"@ && "Friday"@ != "Tuesday"@
            && "Friday"@ != "Wednesday"@ && "Friday"@ != "Thursday"@);
    } else {
        assert(weekday_name(year, month, day) == "Saturday"@);
        assert("Saturday"@ != "Sunday"@ && "Saturday"@ != "Monday"@ && "Saturday"@ != "Tuesday"@
            && "Saturday"@ != "Wednesday"@ && "Saturday"@ != "Thursday"@ && "Saturday"@ != "Friday"@);
    }
}

} // verus!
