//! Small formatting helpers shared by the views.
//!
//! Times are read in the local time zone through jiff; what comes back is
//! held as a [`LocalTime`] of plain numbers, and the wording is decided
//! here from those numbers.

use vstd::prelude::*;

use crate::text::{
    chars_of, decimal, digit, digit_char, from_chars, is_alphanumeric, is_alphanumeric_char, is_ascii_digit,
    is_digit, is_white_space, is_whitespace, push_char, push_decimal, push_signed, push_str,
    push_two_digits, signed_decimal, to_uppercase, two_digits, uppercase_of,
};

verus! {

/// The earliest Unix second jiff represents.
pub const UNIX_MIN: i64 = -377705023201i64;

/// The latest Unix second jiff represents.
pub const UNIX_MAX: i64 = 253402207200i64;

/// A calendar day: the year, the month (1 to 12), the day of the month,
/// and the day of the week (1 for Monday to 7 for Sunday).
#[derive(Clone, Copy, Debug, PartialEq, Eq)]
pub struct CivilDate {
    pub year: i16,
    pub month: i8,
    pub day: i8,
    pub weekday: i8,
}

/// A wall-clock time in the local time zone.
#[derive(Clone, Copy, Debug, PartialEq, Eq)]
pub struct LocalTime {
    pub date: CivilDate,
    pub hour: i8,
    pub minute: i8,
}

impl CivilDate {
    /// The ranges jiff keeps a date's parts in.
    pub open spec fn wf(self) -> bool {
        &&& -9999 <= self.year <= 9999
        &&& 1 <= self.month <= 12
        &&& 1 <= self.day <= 31
        &&& 1 <= self.weekday <= 7
    }
}

impl LocalTime {
    pub open spec fn wf(self) -> bool {
        &&& self.date.wf()
        &&& 0 <= self.hour <= 23
        &&& 0 <= self.minute <= 59
    }
}

/// Whether a year of the Gregorian calendar has a 29th of February.
pub open spec fn leap_year(year: int) -> bool {
    year % 4 == 0 && (year % 100 != 0 || year % 400 == 0)
}

/// How many days a month has.
pub open spec fn days_in_month(year: int, month: int) -> int {
    if month == 2 {
        if leap_year(year) {
            29
        } else {
            28
        }
    } else if month == 4 || month == 6 || month == 9 || month == 11 {
        30
    } else {
        31
    }
}

/// A date jiff accepts: a year from -9999 to 9999, a month, and a day that
/// month has.
pub open spec fn valid_date(year: int, month: int, day: int) -> bool {
    -9999 <= year <= 9999 && 1 <= month <= 12 && 1 <= day <= days_in_month(year, month)
}

/// The days from 1970-01-01 to a date of the proleptic Gregorian calendar
/// (negative before it), counting in whole 400-year eras of 146097 days
/// from a year that starts in March.
pub open spec fn day_number(year: int, month: int, day: int) -> int {
    let y = if month <= 2 {
        year - 1
    } else {
        year
    };
    let era = y / 400;
    let year_of_era = y - era * 400;
    let shifted_month = if month > 2 {
        month - 3
    } else {
        month + 9
    };
    let day_of_year = (153 * shifted_month + 2) / 5 + day - 1;
    let day_of_era = year_of_era * 365 + year_of_era / 4 - year_of_era / 100 + day_of_year;
    era * 146097 + day_of_era - 719468
}

/// The day of the week of a date, 1 for Monday to 7 for Sunday
/// (1970-01-01 was a Thursday).
pub open spec fn weekday_of(year: i16, month: i8, day: i8) -> i8 {
    ((day_number(year as int, month as int, day as int) + 3) % 7 + 1) as i8
}

/// How many days lie from `date` to `today` (`today.since(date)` in days:
/// jiff's spans hold the distance between any two of its dates, and in
/// days when days are the largest unit), `i32::MAX` for a date jiff
/// refuses.
pub open spec fn days_between(
    today_year: i16,
    today_month: i8,
    today_day: i8,
    year: i16,
    month: i8,
    day: i8,
) -> i32 {
    if valid_date(today_year as int, today_month as int, today_day as int) && valid_date(
        year as int,
        month as int,
        day as int,
    ) {
        (day_number(today_year as int, today_month as int, today_day as int) - day_number(
            year as int,
            month as int,
            day as int,
        )) as i32
    } else {
        i32::MAX
    }
}

/// The offsets from UTC a time zone can have, in seconds: jiff keeps them
/// within 25:59:59 either way.
pub open spec fn offset_in_range(offset: int) -> bool {
    -93599 <= offset <= 93599
}

/// Whether a timestamp, shifted by an offset from UTC, reads as this wall
/// clock time: the minutes since 1970-01-01 00:00 agree.
pub open spec fn reads_at_offset(unix_seconds: int, offset: int, moment: LocalTime) -> bool {
    &&& offset_in_range(offset)
    &&& (unix_seconds + offset) / 60 == day_number(
        moment.date.year as int,
        moment.date.month as int,
        moment.date.day as int,
    ) * 1440 + moment.hour * 60 + moment.minute
}

/// A wall clock time a timestamp reads as in some time zone.
pub open spec fn local_time_of(unix_seconds: int, moment: LocalTime) -> bool {
    &&& moment.wf()
    &&& calendar_date(moment.date)
    &&& exists|offset: int| #[trigger] reads_at_offset(unix_seconds, offset, moment)
}

/// Whether a timestamp, shifted by an offset from UTC, falls on this day.
pub open spec fn falls_at_offset(unix_seconds: int, offset: int, date: CivilDate) -> bool {
    &&& offset_in_range(offset)
    &&& (unix_seconds + offset) / 86400 == day_number(
        date.year as int,
        date.month as int,
        date.day as int,
    )
}

/// A calendar day a timestamp falls on in some time zone.
pub open spec fn local_day_of(unix_seconds: int, date: CivilDate) -> bool {
    &&& calendar_date(date)
    &&& exists|offset: int| #[trigger] falls_at_offset(unix_seconds, offset, date)
}

/// The day of a wall clock time is the day the timestamp falls on at the
/// same offset.
proof fn lemma_local_day(unix_seconds: int, moment: LocalTime)
    requires
        local_time_of(unix_seconds, moment),
    ensures
        local_day_of(unix_seconds, moment.date),
{
    let offset = choose|offset: int| #[trigger] reads_at_offset(unix_seconds, offset, moment);
    let x = unix_seconds + offset;
    let d = day_number(moment.date.year as int, moment.date.month as int, moment.date.day as int);
    let m = moment.hour * 60 + moment.minute;
    vstd::arithmetic::div_mod::lemma_fundamental_div_mod(x, 60);
    assert(x == (x / 60) * 60 + x % 60);
    assert(x / 60 == d * 1440 + m);
    assert(x == d * 86400 + (m * 60 + x % 60)) by (nonlinear_arith)
        requires
            x == (x / 60) * 60 + x % 60,
            x / 60 == d * 1440 + m,
    ;
    vstd::arithmetic::div_mod::lemma_fundamental_div_mod_converse(x, 86400, d, m * 60 + x % 60);
    assert(falls_at_offset(unix_seconds, offset, moment.date));
}

/// A date's weekday agrees with jiff's calendar.
pub open spec fn calendar_date(date: CivilDate) -> bool {
    date.wf() && valid_date(date.year as int, date.month as int, date.day as int) && date.weekday
        == weekday_of(date.year, date.month, date.day)
}

/// `Timestamp::from_second` followed by `to_zoned` in the system time zone.
/// jiff accepts exactly the seconds from `UNIX_MIN` to `UNIX_MAX`; the
/// local time is the timestamp shifted by the offset of the machine's time
/// zone at that moment, which is not stated, beyond jiff's bound on any
/// offset.
#[verifier::external_body]
fn zoned(unix_seconds: i64) -> (r: Option<LocalTime>)
    ensures
        r is Some <==> UNIX_MIN <= unix_seconds <= UNIX_MAX,
        r matches Some(t) ==> local_time_of(unix_seconds as int, t),
{
    let timestamp = jiff::Timestamp::from_second(unix_seconds).ok()?;
    let moment = timestamp.to_zoned(jiff::tz::TimeZone::system());
    let date = moment.date();
    Some(LocalTime {
        date: CivilDate {
            year: date.year(),
            month: date.month(),
            day: date.day(),
            weekday: date.weekday().to_monday_one_offset(),
        },
        hour: moment.hour(),
        minute: moment.minute(),
    })
}

/// `Zoned::now().date()`: today's date in the local time zone, which
/// depends on the clock; only that it is a date of the calendar is stated.
#[verifier::external_body]
fn today() -> (r: CivilDate)
    ensures
        calendar_date(r),
{
    let date = jiff::Zoned::now().date();
    CivilDate {
        year: date.year(),
        month: date.month(),
        day: date.day(),
        weekday: date.weekday().to_monday_one_offset(),
    }
}

/// `Date::since` in days, `i32::MAX` when jiff refuses a date or the span.
#[verifier::external_body]
fn days_since(today: &CivilDate, date: &CivilDate) -> (r: i32)
    ensures
        r == days_between(today.year, today.month, today.day, date.year, date.month, date.day),
{
    match (
        jiff::civil::Date::new(today.year, today.month, today.day),
        jiff::civil::Date::new(date.year, date.month, date.day),
    ) {
        (Ok(today), Ok(date)) => today.since(date).map(|span| span.get_days()).unwrap_or(i32::MAX),
        _ => i32::MAX,
    }
}

/// `Timestamp::now().as_second()`: the current time as a Unix timestamp.
#[verifier::external_body]
pub fn now() -> i64 {
    jiff::Timestamp::now().as_second()
}

// ---------------------------------------------------------------------
// Wording.

/// "14:05".
pub open spec fn clock_text(moment: LocalTime) -> Seq<char> {
    two_digits(moment.hour as nat) + seq![':'] + two_digits(moment.minute as nat)
}

pub open spec fn weekday_text(weekday: i8) -> Seq<char> {
    if weekday == 1 {
        "Monday"@
    } else if weekday == 2 {
        "Tuesday"@
    } else if weekday == 3 {
        "Wednesday"@
    } else if weekday == 4 {
        "Thursday"@
    } else if weekday == 5 {
        "Friday"@
    } else if weekday == 6 {
        "Saturday"@
    } else {
        "Sunday"@
    }
}

pub open spec fn month_text(month: i8) -> Seq<char> {
    if month == 1 {
        "January"@
    } else if month == 2 {
        "February"@
    } else if month == 3 {
        "March"@
    } else if month == 4 {
        "April"@
    } else if month == 5 {
        "May"@
    } else if month == 6 {
        "June"@
    } else if month == 7 {
        "July"@
    } else if month == 8 {
        "August"@
    } else if month == 9 {
        "September"@
    } else if month == 10 {
        "October"@
    } else if month == 11 {
        "November"@
    } else {
        "December"@
    }
}

/// "14 Nov 2023".
pub open spec fn short_date_text(date: CivilDate) -> Seq<char> {
    decimal(date.day as nat) + seq![' '] + month_text(date.month).take(3) + seq![' ']
        + signed_decimal(date.year as int)
}

/// "Tuesday, 14 November 2023".
pub open spec fn long_date_text(date: CivilDate) -> Seq<char> {
    weekday_text(date.weekday) + ", "@ + decimal(date.day as nat) + seq![' '] + month_text(
        date.month,
    ) + seq![' '] + signed_decimal(date.year as int)
}

/// The stamp on a chat row, `days` after the message's `date`: the time
/// today, "Yesterday", a weekday within the week, and a date beyond it.
pub open spec fn stamp_text(days: i32, date: CivilDate, moment: LocalTime) -> Seq<char> {
    if days == 0 {
        clock_text(moment)
    } else if days == 1 {
        "Yesterday"@
    } else if 2 <= days <= 6 {
        weekday_text(date.weekday)
    } else {
        short_date_text(date)
    }
}

/// The label of a day separator `days` after `date`.
pub open spec fn day_label_text(days: i32, date: CivilDate) -> Seq<char> {
    if days == 0 {
        "Today"@
    } else if days == 1 {
        "Yesterday"@
    } else if 2 <= days <= 6 {
        weekday_text(date.weekday)
    } else {
        long_date_text(date)
    }
}

fn weekday_name(weekday: i8) -> (r: &'static str)
    ensures
        r@ == weekday_text(weekday),
{
    if weekday == 1 {
        "Monday"
    } else if weekday == 2 {
        "Tuesday"
    } else if weekday == 3 {
        "Wednesday"
    } else if weekday == 4 {
        "Thursday"
    } else if weekday == 5 {
        "Friday"
    } else if weekday == 6 {
        "Saturday"
    } else {
        "Sunday"
    }
}

fn month_name(month: i8) -> (r: &'static str)
    ensures
        r@ == month_text(month),
{
    if month == 1 {
        "January"
    } else if month == 2 {
        "February"
    } else if month == 3 {
        "March"
    } else if month == 4 {
        "April"
    } else if month == 5 {
        "May"
    } else if month == 6 {
        "June"
    } else if month == 7 {
        "July"
    } else if month == 8 {
        "August"
    } else if month == 9 {
        "September"
    } else if month == 10 {
        "October"
    } else if month == 11 {
        "November"
    } else {
        "December"
    }
}

fn clock_of(moment: &LocalTime) -> (r: String)
    requires
        moment.wf(),
    ensures
        r@ == clock_text(*moment),
{
    let mut out = String::new();
    push_two_digits(&mut out, moment.hour as u64);
    push_char(&mut out, ':');
    push_two_digits(&mut out, moment.minute as u64);
    assert(out@ =~= clock_text(*moment));
    out
}

proof fn lemma_month_text_long(month: i8)
    ensures
        month_text(month).len() >= 3,
{
    reveal_strlit("January");
    reveal_strlit("February");
    reveal_strlit("March");
    reveal_strlit("April");
    reveal_strlit("May");
    reveal_strlit("June");
    reveal_strlit("July");
    reveal_strlit("August");
    reveal_strlit("September");
    reveal_strlit("October");
    reveal_strlit("November");
    reveal_strlit("December");
}

fn short_date(date: &CivilDate) -> (r: String)
    requires
        date.wf(),
    ensures
        r@ == short_date_text(*date),
{
    let mut out = String::new();
    push_decimal(&mut out, date.day as u64);
    push_char(&mut out, ' ');
    let month = chars_of(month_name(date.month));
    proof {
        lemma_month_text_long(date.month);
    }
    let abbreviation = from_chars(crate::text::slice_take(month.as_slice(), 3));
    push_str(&mut out, abbreviation.as_str());
    push_char(&mut out, ' ');
    push_signed(&mut out, date.year as i64);
    assert(out@ =~= short_date_text(*date));
    out
}

fn long_date(date: &CivilDate) -> (r: String)
    requires
        date.wf(),
    ensures
        r@ == long_date_text(*date),
{
    let mut out = String::new();
    push_str(&mut out, weekday_name(date.weekday));
    push_str(&mut out, ", ");
    push_decimal(&mut out, date.day as u64);
    push_char(&mut out, ' ');
    push_str(&mut out, month_name(date.month));
    push_char(&mut out, ' ');
    push_signed(&mut out, date.year as i64);
    assert(out@ =~= long_date_text(*date));
    out
}

/// "14:05", the time a message was sent, in local time; empty for a time
/// jiff cannot represent.
pub fn clock(unix_seconds: i64) -> (r: String)
    ensures
        !(UNIX_MIN <= unix_seconds <= UNIX_MAX) ==> r@ == Seq::<char>::empty(),
        UNIX_MIN <= unix_seconds <= UNIX_MAX ==> exists|moment: LocalTime|
            #[trigger] local_time_of(unix_seconds as int, moment) && r@ == clock_text(moment),
{
    match zoned(unix_seconds) {
        Some(moment) => clock_of(&moment),
        None => String::new(),
    }
}

/// The stamp for a message sent at `moment`, on `date`, seen on `today`.
pub fn stamp_relative_to(date: &CivilDate, today: &CivilDate, moment: &LocalTime) -> (r: String)
    requires
        date.wf(),
        moment.wf(),
    ensures
        r@ == stamp_text(
            days_between(today.year, today.month, today.day, date.year, date.month, date.day),
            *date,
            *moment,
        ),
{
    let days = days_since(today, date);
    if days == 0 {
        clock_of(moment)
    } else if days == 1 {
        String::from_str("Yesterday")
    } else if 2 <= days && days <= 6 {
        String::from_str(weekday_name(date.weekday))
    } else {
        short_date(date)
    }
}

/// What the stamp on a chat row may read for a moment: nothing when the
/// moment is beyond the calendar's range; else the stamp for a wall clock
/// time of the moment, seen on some calendar day as today.
pub open spec fn chat_stamp_of(unix_seconds: i64, text: Seq<char>) -> bool {
    &&& !(UNIX_MIN <= unix_seconds <= UNIX_MAX) ==> text == Seq::<char>::empty()
    &&& UNIX_MIN <= unix_seconds <= UNIX_MAX ==> exists|moment: LocalTime, today: CivilDate|
        #[trigger] local_time_of(unix_seconds as int, moment) && #[trigger] calendar_date(today)
            && text == stamp_text(
            days_between(
                today.year,
                today.month,
                today.day,
                moment.date.year,
                moment.date.month,
                moment.date.day,
            ),
            moment.date,
            moment,
        )
}

/// The stamp on a chat row: the time today, "Yesterday", a weekday within
/// the week, and a date beyond it.
pub fn chat_stamp(unix_seconds: i64) -> (r: String)
    ensures
        chat_stamp_of(unix_seconds, r@),
{
    let Some(moment) = zoned(unix_seconds) else {
        return String::new();
    };
    let today = today();
    stamp_relative_to(&moment.date, &today, &moment)
}

/// The label of a day separator for a message sent on `date`, seen on
/// `today`.
pub fn day_label_relative_to(date: &CivilDate, today: &CivilDate) -> (r: String)
    requires
        date.wf(),
    ensures
        r@ == day_label_text(
            days_between(today.year, today.month, today.day, date.year, date.month, date.day),
            *date,
        ),
{
    let days = days_since(today, date);
    if days == 0 {
        String::from_str("Today")
    } else if days == 1 {
        String::from_str("Yesterday")
    } else if 2 <= days && days <= 6 {
        String::from_str(weekday_name(date.weekday))
    } else {
        long_date(date)
    }
}

/// The label of a day separator in a conversation.
pub fn day_label(unix_seconds: i64) -> (r: String)
    ensures
        !(UNIX_MIN <= unix_seconds <= UNIX_MAX) ==> r@ == Seq::<char>::empty(),
        UNIX_MIN <= unix_seconds <= UNIX_MAX ==> exists|date: CivilDate, today: CivilDate|
            #[trigger] local_day_of(unix_seconds as int, date) && #[trigger] calendar_date(today)
                && r@ == day_label_text(
                days_between(today.year, today.month, today.day, date.year, date.month, date.day),
                date,
            ),
{
    let Some(moment) = zoned(unix_seconds) else {
        return String::new();
    };
    let today = today();
    proof {
        lemma_local_day(unix_seconds as int, moment);
    }
    day_label_relative_to(&moment.date, &today)
}

/// The local calendar day a timestamp falls on, for grouping messages.
pub fn day_key(unix_seconds: i64) -> (r: Option<CivilDate>)
    ensures
        r is Some <==> UNIX_MIN <= unix_seconds <= UNIX_MAX,
        r matches Some(date) ==> local_day_of(unix_seconds as int, date),
{
    match zoned(unix_seconds) {
        Some(moment) => {
            proof {
                lemma_local_day(unix_seconds as int, moment);
            }
            Some(moment.date)
        },
        None => None,
    }
}

// ---------------------------------------------------------------------
// Numbers and names.

/// "1:15" for seventy-five seconds.
pub open spec fn duration_text(seconds: nat) -> Seq<char> {
    decimal(seconds / 60) + seq![':'] + two_digits(seconds % 60)
}

/// "0:12" for the length of a voice message.
pub fn duration(seconds: u32) -> (r: String)
    ensures
        r@ == duration_text(seconds as nat),
{
    let mut out = String::new();
    push_decimal(&mut out, (seconds / 60) as u64);
    push_char(&mut out, ':');
    push_two_digits(&mut out, (seconds % 60) as u64);
    assert(out@ =~= duration_text(seconds as nat));
    out
}

/// The spacing between neighbouring `f64` values near the whole number `n`:
/// one below 2^53, doubling with each bit above that.
pub open spec fn f64_spacing(n: nat) -> nat
    decreases n,
{
    if n < 0x20_0000_0000_0000 {
        1
    } else {
        2 * f64_spacing(n / 2)
    }
}

/// A whole number as an `f64` holds it: the nearest multiple of the
/// spacing, a tie going to the even multiple.
pub open spec fn as_f64(n: nat) -> nat {
    let step = f64_spacing(n);
    let q = n / step;
    let r = n % step;
    if 2 * r > step || (2 * r == step && q % 2 == 1) {
        (q + 1) * step
    } else {
        q * step
    }
}

/// 1024 to the power `unit`.
pub open spec fn unit_size(unit: nat) -> nat
    decreases unit,
{
    if unit == 0 {
        1
    } else {
        1024 * unit_size((unit - 1) as nat)
    }
}

/// The unit a size is shown in: bytes below a thousand, then the largest of
/// kilo-, mega- and gigabytes in which it is at least a thousand units' worth
/// less one step.
pub open spec fn size_unit(value: nat) -> nat {
    if value < 1000 {
        0
    } else if value < 1000 * 1024 {
        1
    } else if value < 1000 * 1024 * 1024 {
        2
    } else {
        3
    }
}

/// `value / divisor` in tenths, rounded to the nearest, a tie to the even
/// tenth.
pub open spec fn tenths(value: nat, divisor: nat) -> nat {
    let q = 10 * value / divisor;
    let r = 10 * value % divisor;
    if 2 * r > divisor || (2 * r == divisor && q % 2 == 1) {
        q + 1
    } else {
        q
    }
}

/// The name of a unit.
pub open spec fn unit_name(unit: nat) -> Seq<char> {
    if unit == 0 {
        seq!['B']
    } else if unit == 1 {
        seq!['K', 'B']
    } else if unit == 2 {
        seq!['M', 'B']
    } else {
        seq!['G', 'B']
    }
}

/// "512 B", or the size in the largest fitting unit with one decimal, such
/// as "1.2 MB".
pub open spec fn bytes_text(size: nat) -> Seq<char> {
    let value = as_f64(size);
    let unit = size_unit(value);
    if unit == 0 {
        decimal(size) + seq![' ', 'B']
    } else {
        let t = tenths(value, unit_size(unit));
        decimal(t / 10) + seq!['.', digit_char(t % 10), ' '] + unit_name(unit)
    }
}

/// `n` as the `f64` that holds it.
fn f64_value(n: u64) -> (f: u128)
    ensures
        f == as_f64(n as nat),
        f <= n + 4096,
{
    let mut step: u64 = 1;
    while n / step >= 0x20_0000_0000_0000
        invariant
            1 <= step <= 4096,
            f64_spacing(n as nat) == step * f64_spacing((n / step) as nat),
        decreases n / step,
    {
        let ghost old_step: int = step as int;
        let ghost x: int = (n / step) as int;
        proof {
            vstd::arithmetic::div_mod::lemma_fundamental_div_mod(n as int, step as int);
            assert(step * (n / step) <= n);
            assert(step * 0x20_0000_0000_0000 <= step * (n / step)) by (nonlinear_arith)
                requires
                    n / step >= 0x20_0000_0000_0000,
                    step >= 1,
            ;
            vstd::arithmetic::div_mod::lemma_div_denominator(n as int, step as int, 2);
            assert(f64_spacing(x as nat) == 2 * f64_spacing((x / 2) as nat));
        }
        step = step * 2;
        proof {
            assert(x / 2 == n / step);
            let y = f64_spacing((x / 2) as nat);
            assert(old_step * (2 * y) == step * y) by (nonlinear_arith)
                requires
                    step == old_step * 2,
            ;
        }
    }
    let q: u64 = n / step;
    let r: u64 = n % step;
    proof {
        vstd::arithmetic::div_mod::lemma_fundamental_div_mod(n as int, step as int);
        assert(q == n / step);
        assert(f64_spacing(q as nat) == 1);
        let sp = f64_spacing(n as nat);
        assert(sp == step * f64_spacing(q as nat));
        assert(sp == step) by (nonlinear_arith)
            requires
                sp == step * f64_spacing(q as nat),
                f64_spacing(q as nat) == 1,
        ;
        assert(q * step <= n) by (nonlinear_arith)
            requires
                n == step * q + r,
                r >= 0,
        ;
    }
    let up: bool = 2 * (r as u128) > step as u128 || (2 * (r as u128) == step as u128 && q % 2
        == 1);
    proof {
        assert((q + 1) * step == q * step + step) by (nonlinear_arith);
    }
    let f: u128 = if up {
        (q as u128 + 1) * step as u128
    } else {
        q as u128 * step as u128
    };
    f
}

/// "1.2 MB", for a document.
pub fn bytes(size: u64) -> (r: String)
    ensures
        r@ == bytes_text(size as nat),
{
    let value: u128 = f64_value(size);
    let mut out = String::new();
    if value < 1000 {
        push_decimal(&mut out, size);
        push_char(&mut out, ' ');
        push_char(&mut out, 'B');
        assert(out@ =~= bytes_text(size as nat));
        return out;
    }
    let unit: u64 = if value < 1000 * 1024 {
        1
    } else if value < 1000 * 1024 * 1024 {
        2
    } else {
        3
    };
    let divisor: u128 = if unit == 1 {
        1024
    } else if unit == 2 {
        1024 * 1024
    } else {
        1024 * 1024 * 1024
    };
    assert(divisor == unit_size(unit as nat)) by {
        reveal_with_fuel(unit_size, 4);
    }
    let q: u128 = 10 * value / divisor;
    let r: u128 = 10 * value % divisor;
    let t: u128 = if 2 * r > divisor || (2 * r == divisor && q % 2 == 1) {
        q + 1
    } else {
        q
    };
    assert(t == tenths(value as nat, unit_size(unit as nat)));
    proof {
        vstd::arithmetic::div_mod::lemma_div_is_ordered_by_denominator(
            10 * value as int,
            1024,
            divisor as int,
        );
        vstd::arithmetic::div_mod::lemma_div_is_ordered(
            10 * value as int,
            10 * 0x1_0000_0000_0000_1000int,
            1024,
        );
        assert(t <= 0x400_0000_0000_0000int);
    }
    push_decimal(&mut out, (t / 10) as u64);
    push_char(&mut out, '.');
    push_char(&mut out, digit((t % 10) as u64));
    push_char(&mut out, ' ');
    if unit == 1 {
        push_char(&mut out, 'K');
    } else if unit == 2 {
        push_char(&mut out, 'M');
    } else {
        push_char(&mut out, 'G');
    }
    push_char(&mut out, 'B');
    assert(out@ =~= bytes_text(size as nat));
    out
}

/// The FNV-1a hash of some bytes, 32 bits wide.
pub open spec fn fnv1a(bytes: Seq<u8>) -> u32
    decreases bytes.len(),
{
    if bytes.len() == 0 {
        2_166_136_261u32
    } else {
        vstd::wrapping::u32_specs::wrapping_mul(
            fnv1a(bytes.drop_last()) ^ (bytes.last() as u32),
            16_777_619u32,
        )
    }
}

/// A stable hue for a name, in whole degrees below 360, so an avatar keeps
/// its colour between runs.
pub fn hue(seed: &str) -> (r: u32)
    ensures
        r == fnv1a(vstd::utf8::encode_utf8(seed@)) % 360,
        r < 360,
{
    let bytes: &[u8] = seed.as_bytes();
    let mut hash: u32 = 2_166_136_261;
    let mut index: usize = 0;
    while index < bytes.len()
        invariant
            index <= bytes@.len(),
            hash == fnv1a(bytes@.take(index as int)),
        decreases bytes@.len() - index,
    {
        assert(bytes@.take(index + 1).drop_last() =~= bytes@.take(index as int));
        hash = (hash ^ (bytes[index] as u32)).wrapping_mul(16_777_619);
        index = index + 1;
    }
    assert(bytes@.take(index as int) =~= bytes@);
    hash % 360
}

/// The ASCII digits of a text, in order.
pub open spec fn digits_of(s: Seq<char>) -> Seq<char>
    decreases s.len(),
{
    if s.len() == 0 {
        Seq::empty()
    } else if is_digit(s.last()) {
        digits_of(s.drop_last()).push(s.last())
    } else {
        digits_of(s.drop_last())
    }
}

/// Whether a space goes before the digit at `index`: after the country
/// code, then every three digits.
pub open spec fn space_before(index: int) -> bool {
    index == 2 || (index > 2 && (index - 2) % 3 == 0)
}

/// Digits spaced into groups.
pub open spec fn grouped(digits: Seq<char>) -> Seq<char>
    decreases digits.len(),
{
    if digits.len() == 0 {
        Seq::empty()
    } else {
        grouped(digits.drop_last()) + (if space_before(digits.len() - 1) {
            seq![' ']
        } else {
            Seq::empty()
        }) + seq![digits.last()]
    }
}

/// A phone number as people write it.
pub open spec fn phone_text(s: Seq<char>) -> Seq<char> {
    let digits = digits_of(s);
    if digits.len() == 0 {
        Seq::empty()
    } else {
        seq!['+'] + grouped(digits)
    }
}

/// The ASCII digits of a text, in order.
pub fn ascii_digits(s: &str) -> (r: Vec<char>)
    ensures
        r@ == digits_of(s@),
{
    let chars = chars_of(s);
    let mut only: Vec<char> = Vec::new();
    let mut i: usize = 0;
    while i < chars.len()
        invariant
            chars@ == s@,
            i <= chars@.len(),
            only@ == digits_of(chars@.take(i as int)),
        decreases chars@.len() - i,
    {
        assert(chars@.take(i + 1).drop_last() =~= chars@.take(i as int));
        if is_ascii_digit(chars[i]) {
            only.push(chars[i]);
        }
        i = i + 1;
    }
    assert(chars@.take(chars@.len() as int) =~= chars@);
    only
}

/// A phone number as people write it: a plus and the digits, spaced.
pub fn phone(digits: &str) -> (r: String)
    ensures
        r@ == phone_text(digits@),
{
    let only = ascii_digits(digits);
    if only.len() == 0 {
        return String::new();
    }
    let mut out = String::new();
    push_char(&mut out, '+');
    let mut index: usize = 0;
    while index < only.len()
        invariant
            index <= only@.len(),
            only@.len() > 0,
            out@ == seq!['+'] + grouped(only@.take(index as int)),
        decreases only@.len() - index,
    {
        assert(only@.take(index + 1).drop_last() =~= only@.take(index as int));
        // Country code, then groups of three; imprecise for many countries
        // but readable for all of them.
        if index == 2 || (index > 2 && (index - 2) % 3 == 0) {
            push_char(&mut out, ' ');
        }
        push_char(&mut out, only[index]);
        index = index + 1;
        assert(out@ =~= seq!['+'] + grouped(only@.take(index as int)));
    }
    assert(only@.take(only@.len() as int) =~= only@);
    out
}

/// A separator between words of a name.
pub open spec fn word_break(c: char) -> bool {
    is_white_space(c) || c == '-'
}

/// The pieces of a text between separators, as `str::split` gives them
/// (empty pieces included).
pub open spec fn split_words(s: Seq<char>) -> Seq<Seq<char>>
    decreases s.len(),
{
    if s.len() == 0 {
        seq![Seq::empty()]
    } else if word_break(s.last()) {
        split_words(s.drop_last()).push(Seq::empty())
    } else {
        let words = split_words(s.drop_last());
        words.update(words.len() - 1, words.last().push(s.last()))
    }
}

proof fn lemma_split_words_nonempty(s: Seq<char>)
    ensures
        split_words(s).len() >= 1,
    decreases s.len(),
{
    if s.len() > 0 {
        lemma_split_words_nonempty(s.drop_last());
    }
}

/// Whether a word holds a letter or digit.
pub open spec fn has_alphanumeric(word: Seq<char>) -> bool {
    exists|i: int| 0 <= i < word.len() && #[trigger] is_alphanumeric_char(word[i])
}

/// The words that hold a letter or a digit.
pub open spec fn named_words(words: Seq<Seq<char>>) -> Seq<Seq<char>>
    decreases words.len(),
{
    if words.len() == 0 {
        Seq::empty()
    } else if has_alphanumeric(words.last()) {
        named_words(words.drop_last()).push(words.last())
    } else {
        named_words(words.drop_last())
    }
}

/// The index of the first letter or digit of a word.
pub open spec fn first_alphanumeric(word: Seq<char>) -> int
    decreases word.len(),
{
    if word.len() == 0 || is_alphanumeric_char(word[0]) {
        0
    } else {
        1 + first_alphanumeric(word.drop_first())
    }
}

/// The initial of a word: its first letter or digit, upper-cased.
pub open spec fn initial_of(word: Seq<char>) -> Seq<char> {
    uppercase_of(word[first_alphanumeric(word)])
}

/// Up to two initials: of the first and the last word that hold a letter
/// or digit, or "#" moment there are none.
pub open spec fn initials_text(name: Seq<char>) -> Seq<char> {
    let words = named_words(split_words(name));
    let letters = if words.len() == 0 {
        Seq::empty()
    } else if words.len() == 1 {
        initial_of(words[0])
    } else {
        initial_of(words[0]) + initial_of(words.last())
    };
    if letters.len() == 0 {
        seq!['#']
    } else {
        letters
    }
}

proof fn lemma_first_alphanumeric(word: Seq<char>)
    requires
        has_alphanumeric(word),
    ensures
        0 <= first_alphanumeric(word) < word.len(),
        is_alphanumeric_char(word[first_alphanumeric(word)]),
        forall|j: int| 0 <= j < first_alphanumeric(word) ==> !is_alphanumeric_char(#[trigger] word[j]),
    decreases word.len(),
{
    if !is_alphanumeric_char(word[0]) {
        let i = choose|i: int| 0 <= i < word.len() && #[trigger] is_alphanumeric_char(word[i]);
        assert(word.drop_first()[i - 1] == word[i]);
        lemma_first_alphanumeric(word.drop_first());
        assert forall|j: int| 0 <= j < first_alphanumeric(word) implies !is_alphanumeric_char(
            #[trigger] word[j],
        ) by {
            if j > 0 {
                assert(word[j] == word.drop_first()[j - 1]);
            }
        }
    }
}

/// The initial of a word that holds a letter or digit.
fn initial(word: &Vec<char>) -> (r: Vec<char>)
    requires
        has_alphanumeric(word@),
    ensures
        r@ == initial_of(word@),
{
    proof {
        lemma_first_alphanumeric(word@);
    }
    let mut i: usize = 0;
    while i < word.len()
        invariant
            i <= first_alphanumeric(word@),
            0 <= first_alphanumeric(word@) < word@.len(),
            is_alphanumeric_char(word@[first_alphanumeric(word@)]),
            forall|j: int| 0 <= j < first_alphanumeric(word@) ==> !is_alphanumeric_char(#[trigger] word@[j]),
        decreases word@.len() - i,
    {
        if is_alphanumeric(word[i]) {
            return to_uppercase(word[i]);
        }
        i = i + 1;
    }
    Vec::new()
}

/// Whether a word holds a letter or digit.
fn holds_alphanumeric(word: &Vec<char>) -> (r: bool)
    ensures
        r == has_alphanumeric(word@),
{
    let mut i: usize = 0;
    while i < word.len()
        invariant
            i <= word@.len(),
            forall|j: int| 0 <= j < i ==> !is_alphanumeric_char(#[trigger] word@[j]),
        decreases word@.len() - i,
    {
        if is_alphanumeric(word[i]) {
            assert(is_alphanumeric_char(word@[i as int]));
            return true;
        }
        i = i + 1;
    }
    false
}

pub open spec fn words_view(words: Seq<Vec<char>>) -> Seq<Seq<char>> {
    words.map_values(|w: Vec<char>| w@)
}

/// Up to two initials, for an avatar without a picture.
pub fn initials(name: &str) -> (r: String)
    ensures
        r@ == initials_text(name@),
{
    let chars = chars_of(name);
    let mut done: Vec<Vec<char>> = Vec::new();
    let mut current: Vec<char> = Vec::new();
    let mut i: usize = 0;
    assert(words_view(done@).push(current@) =~= split_words(chars@.take(0)));
    while i < chars.len()
        invariant
            chars@ == name@,
            i <= chars@.len(),
            words_view(done@).push(current@) == split_words(chars@.take(i as int)),
        decreases chars@.len() - i,
    {
        assert(chars@.take(i + 1).drop_last() =~= chars@.take(i as int));
        let c = chars[i];
        let ghost before = words_view(done@);
        if is_whitespace(c) || c == '-' {
            let finished = current;
            done.push(finished);
            current = Vec::new();
            assert(words_view(done@) =~= before.push(finished@));
        } else {
            current.push(c);
        }
        i = i + 1;
        assert(words_view(done@).push(current@) =~= split_words(chars@.take(i as int)));
    }
    assert(chars@.take(chars@.len() as int) =~= chars@);
    done.push(current);
    let ghost all = words_view(done@);
    assert(all =~= split_words(name@));
    let mut named: Vec<Vec<char>> = Vec::new();
    let mut k: usize = 0;
    while k < done.len()
        invariant
            all == words_view(done@),
            k <= done@.len(),
            words_view(named@) == named_words(all.take(k as int)),
            forall|j: int| 0 <= j < named@.len() ==> has_alphanumeric(#[trigger] named@[j]@),
        decreases done@.len() - k,
    {
        assert(all.take(k + 1).drop_last() =~= all.take(k as int));
        assert(all.take(k + 1).last() == done@[k as int]@);
        if holds_alphanumeric(&done[k]) {
            let ghost before = words_view(named@);
            named.push(copy_word(&done[k]));
            assert(words_view(named@) =~= before.push(done@[k as int]@));
        }
        k = k + 1;
    }
    assert(all.take(done@.len() as int) =~= all);
    let ghost words = words_view(named@);
    let mut letters: Vec<char> = Vec::new();
    if named.len() >= 1 {
        assert(words[0] == named@[0]@);
        letters = initial(&named[0]);
        if named.len() >= 2 {
            let last = named.len() - 1;
            assert(words.last() == named@[last as int]@);
            let second = initial(&named[last]);
            crate::text::extend_chars(&mut letters, second.as_slice());
        }
    }
    if letters.len() == 0 {
        letters.push('#');
        assert(letters@ =~= seq!['#']);
    }
    from_chars(letters.as_slice())
}

fn copy_word(word: &Vec<char>) -> (r: Vec<char>)
    ensures
        r@ == word@,
{
    crate::text::copy_chars(word.as_slice())
}

proof fn lemma_digits_append(a: Seq<char>, b: Seq<char>)
    ensures
        digits_of(a + b) == digits_of(a) + digits_of(b),
    decreases b.len(),
{
    if b.len() == 0 {
        assert(a + b =~= a);
        assert(digits_of(a) + digits_of(b) =~= digits_of(a));
    } else {
        assert((a + b).drop_last() =~= a + b.drop_last());
        lemma_digits_append(a, b.drop_last());
        if is_digit(b.last()) {
            assert(digits_of(a) + digits_of(b.drop_last()).push(b.last()) =~= (digits_of(a)
                + digits_of(b.drop_last())).push(b.last()));
        }
    }
}

proof fn lemma_digits_one(c: char)
    ensures
        digits_of(seq![c]) == if is_digit(c) {
            seq![c]
        } else {
            Seq::<char>::empty()
        },
{
    let one = seq![c];
    assert(one.drop_last() =~= Seq::<char>::empty());
    assert(digits_of(one.drop_last()) == Seq::<char>::empty());
    assert(one.last() == c);
    assert(Seq::<char>::empty().push(c) =~= seq![c]);
}

proof fn lemma_digits_are_digits(s: Seq<char>)
    ensures
        forall|i: int| 0 <= i < digits_of(s).len() ==> is_digit(#[trigger] digits_of(s)[i]),
        digits_of(s).len() <= s.len(),
    decreases s.len(),
{
    if s.len() > 0 {
        lemma_digits_are_digits(s.drop_last());
    }
}

proof fn lemma_grouped(ds: Seq<char>)
    requires
        forall|i: int| 0 <= i < ds.len() ==> is_digit(#[trigger] ds[i]),
    ensures
        digits_of(grouped(ds)) == ds,
        forall|i: int|
            0 <= i < grouped(ds).len() ==> is_digit(#[trigger] grouped(ds)[i]) || grouped(ds)[i]
                == ' ',
    decreases ds.len(),
{
    if ds.len() > 0 {
        let init = ds.drop_last();
        assert forall|i: int| 0 <= i < init.len() implies is_digit(#[trigger] init[i]) by {
            assert(init[i] == ds[i]);
        }
        lemma_grouped(init);
        let sp: Seq<char> = if space_before(ds.len() - 1) {
            seq![' ']
        } else {
            Seq::empty()
        };
        assert(is_digit(ds[ds.len() - 1]));
        lemma_digits_append(grouped(init) + sp, seq![ds.last()]);
        lemma_digits_append(grouped(init), sp);
        lemma_digits_one(' ');
        assert(digits_of(sp) =~= Seq::<char>::empty()) by {
            if sp.len() == 0 {
                assert(sp =~= Seq::<char>::empty());
            }
        }
        lemma_digits_one(ds.last());
        assert(init + Seq::<char>::empty() + seq![ds.last()] =~= ds);
        let g = grouped(ds);
        assert forall|i: int| 0 <= i < g.len() implies is_digit(#[trigger] g[i]) || g[i] == ' ' by {
            if i < grouped(init).len() {
                assert(g[i] == grouped(init)[i]);
            }
        }
    }
}

/// A phone number as written keeps the digits it was given, in order; it
/// is empty exactly when there are none; it holds nothing but a plus, the
/// digits and spaces; and writing it again changes nothing.
pub proof fn phone_numbers_keep_their_digits(s: Seq<char>)
    ensures
        digits_of(phone_text(s)) == digits_of(s),
        phone_text(s).len() == 0 <==> digits_of(s).len() == 0,
        forall|i: int|
            0 <= i < phone_text(s).len() ==> is_digit(#[trigger] phone_text(s)[i]) || phone_text(s)[i]
                == ' ' || phone_text(s)[i] == '+',
        phone_text(phone_text(s)) == phone_text(s),
{
    let ds = digits_of(s);
    lemma_digits_are_digits(s);
    if ds.len() > 0 {
        lemma_grouped(ds);
        lemma_digits_append(seq!['+'], grouped(ds));
        lemma_digits_one('+');
        assert(Seq::<char>::empty() + ds =~= ds);
        let p = phone_text(s);
        assert forall|i: int| 0 <= i < p.len() implies is_digit(#[trigger] p[i]) || p[i] == ' ' || p[i] == '+' by {
            if i > 0 {
                assert(p[i] == grouped(ds)[i - 1]);
            }
        }
    }
}

/// The English names of the months, January first.
pub open spec fn english_months() -> Seq<Seq<char>> {
    seq![
        "January"@,
        "February"@,
        "March"@,
        "April"@,
        "May"@,
        "June"@,
        "July"@,
        "August"@,
        "September"@,
        "October"@,
        "November"@,
        "December"@,
    ]
}

/// The English abbreviations of the months, as a chat row writes them.
pub open spec fn english_month_abbreviations() -> Seq<Seq<char>> {
    seq![
        "Jan"@,
        "Feb"@,
        "Mar"@,
        "Apr"@,
        "May"@,
        "Jun"@,
        "Jul"@,
        "Aug"@,
        "Sep"@,
        "Oct"@,
        "Nov"@,
        "Dec"@,
    ]
}

/// The English names of the days of the week, Monday first.
pub open spec fn english_weekdays() -> Seq<Seq<char>> {
    seq![
        "Monday"@,
        "Tuesday"@,
        "Wednesday"@,
        "Thursday"@,
        "Friday"@,
        "Saturday"@,
        "Sunday"@,
    ]
}

/// Dates are written in English: a day separator beyond the last week
/// reads "Wednesday, 14 June 2023" with the date's own weekday and month,
/// and a chat row's stamp for it reads "14 Jun 2023".
pub proof fn dates_are_written_in_english(date: CivilDate)
    requires
        date.wf(),
    ensures
        month_text(date.month) == english_months()[date.month - 1],
        weekday_text(date.weekday) == english_weekdays()[date.weekday - 1],
        long_date_text(date) == english_weekdays()[date.weekday - 1] + ", "@ + decimal(
            date.day as nat,
        ) + seq![' '] + english_months()[date.month - 1] + seq![' '] + signed_decimal(
            date.year as int,
        ),
        short_date_text(date) == decimal(date.day as nat) + seq![' ']
            + english_month_abbreviations()[date.month - 1] + seq![' '] + signed_decimal(
            date.year as int,
        ),
{
    reveal_strlit("January");
    reveal_strlit("February");
    reveal_strlit("March");
    reveal_strlit("April");
    reveal_strlit("May");
    reveal_strlit("June");
    reveal_strlit("July");
    reveal_strlit("August");
    reveal_strlit("September");
    reveal_strlit("October");
    reveal_strlit("November");
    reveal_strlit("December");
    reveal_strlit("Jan");
    reveal_strlit("Feb");
    reveal_strlit("Mar");
    reveal_strlit("Apr");
    reveal_strlit("May");
    reveal_strlit("Jun");
    reveal_strlit("Jul");
    reveal_strlit("Aug");
    reveal_strlit("Sep");
    reveal_strlit("Oct");
    reveal_strlit("Nov");
    reveal_strlit("Dec");
    reveal_strlit("Monday");
    reveal_strlit("Tuesday");
    reveal_strlit("Wednesday");
    reveal_strlit("Thursday");
    reveal_strlit("Friday");
    reveal_strlit("Saturday");
    reveal_strlit("Sunday");
    assert(month_text(date.month).take(3) =~= english_month_abbreviations()[date.month - 1]);
}

} // verus!
