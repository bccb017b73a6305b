use chrono::{Datelike, Timelike};
use vstd::prelude::*;
use vstd::string::StringSliceAdditionalSpecFns;

use crate::text::{padded_int_text, push_char, push_padded_i64, push_str};

verus! {

// ---------------------------------------------------------------------------
// Month names.
// ---------------------------------------------------------------------------

/// The English name of month `month` (1 = January), `"???"` outside 1..=12.
pub open spec fn spec_month_name(month: int) -> Seq<char> {
    if month == 1 { "January"@ }
    else if month == 2 { "February"@ }
    else if month == 3 { "March"@ }
    else if month == 4 { "April"@ }
    else if month == 5 { "May"@ }
    else if month == 6 { "June"@ }
    else if month == 7 { "July"@ }
    else if month == 8 { "August"@ }
    else if month == 9 { "September"@ }
    else if month == 10 { "October"@ }
    else if month == 11 { "November"@ }
    else if month == 12 { "December"@ }
    else { "???"@ }
}

/// The three-letter name of month `month`, `"???"` outside 1..=12.
pub open spec fn spec_month_name_short(month: int) -> Seq<char> {
    if month == 1 { "Jan"@ }
    else if month == 2 { "Feb"@ }
    else if month == 3 { "Mar"@ }
    else if month == 4 { "Apr"@ }
    else if month == 5 { "May"@ }
    else if month == 6 { "Jun"@ }
    else if month == 7 { "Jul"@ }
    else if month == 8 { "Aug"@ }
    else if month == 9 { "Sep"@ }
    else if month == 10 { "Oct"@ }
    else if month == 11 { "Nov"@ }
    else if month == 12 { "Dec"@ }
    else { "???"@ }
}

/// The English name of a month.
pub fn month_name(month: u32) -> (r: &'static str)
    ensures
        r@ == spec_month_name(month as int),
{
    match month {
        1 => "January",
        2 => "February",
        3 => "March",
        4 => "April",
        5 => "May",
        6 => "June",
        7 => "July",
        8 => "August",
        9 => "September",
        10 => "October",
        11 => "November",
        12 => "December",
        _ => "???",
    }
}

/// The three-letter name of a month.
pub fn month_name_short(month: i32) -> (r: &'static str)
    ensures
        r@ == spec_month_name_short(month as int),
{
    match month {
        1 => "Jan",
        2 => "Feb",
        3 => "Mar",
        4 => "Apr",
        5 => "May",
        6 => "Jun",
        7 => "Jul",
        8 => "Aug",
        9 => "Sep",
        10 => "Oct",
        11 => "Nov",
        12 => "Dec",
        _ => "???",
    }
}

// ---------------------------------------------------------------------------
// Month arithmetic.
// ---------------------------------------------------------------------------

/// The month after (year, month).
pub open spec fn spec_next_month(year: int, month: int) -> (int, int) {
    if month == 12 { (year + 1, 1) } else { (year, month + 1) }
}

/// The month before (year, month).
pub open spec fn spec_previous_month(year: int, month: int) -> (int, int) {
    if month == 1 { (year - 1, 12) } else { (year, month - 1) }
}

/// A running number of months: consecutive months differ by one.
pub open spec fn month_index(year: int, month: int) -> int {
    12 * year + (month - 1)
}

/// The month after (year, month).
pub fn next_month(year: i32, month: u32) -> (r: (i32, u32))
    requires
        month == 12 ==> year < i32::MAX,
        month != 12 ==> month < u32::MAX,
    ensures
        (r.0 as int, r.1 as int) == spec_next_month(year as int, month as int),
{
    if month == 12 {
        (year + 1, 1u32)
    } else {
        (year, month + 1)
    }
}

/// The month before (year, month).
pub fn previous_month(year: i32, month: u32) -> (r: (i32, u32))
    requires
        month >= 1,
        month == 1 ==> year > i32::MIN,
    ensures
        (r.0 as int, r.1 as int) == spec_previous_month(year as int, month as int),
{
    if month == 1 {
        (year - 1, 12u32)
    } else {
        (year, month - 1)
    }
}

/// Going forward one month from the month before gives the month back.
pub proof fn lemma_next_undoes_previous(year: int, month: int)
    requires
        1 <= month <= 12,
    ensures
        ({
            let p = spec_previous_month(year, month);
            spec_next_month(p.0, p.1) == (year, month)
        }),
        month_index(spec_previous_month(year, month).0, spec_previous_month(year, month).1)
            == month_index(year, month) - 1,
        month_index(spec_next_month(year, month).0, spec_next_month(year, month).1)
            == month_index(year, month) + 1,
{
}

/// The first month of the six-month window that ends with (year, month):
/// five months back; where that is not a positive month number, whole
/// years are taken off until it is.
pub open spec fn spec_trend_start(year: int, month: int) -> (int, int) {
    if month > 5 {
        (year, month - 5)
    } else {
        let k = (5 - month) / 12 + 1;
        (year - k, month - 5 + 12 * k)
    }
}

/// The year count `spec_trend_start` can go back without leaving `i32`.
pub open spec fn trend_start_fits(year: int, month: int) -> bool {
    &&& month >= i32::MIN + 5
    &&& month <= 5 ==> year - ((5 - month) / 12 + 1) >= i32::MIN
}

/// The first month of the six-month window that ends with (year, month).
pub fn trend_start(year: i32, month: i32) -> (r: (i32, i32))
    requires
        trend_start_fits(year as int, month as int),
    ensures
        (r.0 as int, r.1 as int) == spec_trend_start(year as int, month as int),
        r.1 >= 1,
        month <= 17 ==> r.1 <= 12,
        month_index(r.0 as int, r.1 as int) == month_index(year as int, month as int) - 5,
{
    let ghost k: int = if month > 5 { 0 } else { (5 - month) / 12 + 1 };
    let mut start_month = month - 5;
    let mut start_year = year;
    let ghost mut i: int = 0;
    while start_month <= 0
        invariant
            0 <= i <= k,
            k == if month > 5 { 0 } else { (5 - month) / 12 + 1 },
            start_month as int == month - 5 + 12 * i,
            start_year as int == year - i,
            start_month <= 0 ==> i < k,
            trend_start_fits(year as int, month as int),
        decreases k - i,
    {
        start_month = start_month + 12;
        start_year = start_year - 1;
        proof {
            i = i + 1;
        }
    }
    assert(i == k);
    (start_year, start_month)
}

/// Whether `year` is a leap year of the Gregorian calendar.
pub open spec fn spec_is_leap_year(year: int) -> bool {
    year % 4 == 0 && (year % 100 != 0 || year % 400 == 0)
}

/// The number of days of month `month`; 30 for a number outside 1..=12.
pub open spec fn spec_days_in_month(year: int, month: int) -> int {
    if month == 1 || month == 3 || month == 5 || month == 7 || month == 8 || month == 10 || month == 12 {
        31
    } else if month == 4 || month == 6 || month == 9 || month == 11 {
        30
    } else if month == 2 {
        if spec_is_leap_year(year) { 29 } else { 28 }
    } else {
        30
    }
}

/// Whether `d` divides `y`.
fn divides(y: i32, d: u32) -> (r: bool)
    requires
        d > 0,
    ensures
        r == (y as int % d as int == 0),
{
    let a: u32 = if y < 0 { (-(y as i64)) as u32 } else { y as u32 };
    let m = a % d;
    proof {
        let yi = y as int;
        let ai = a as int;
        let di = d as int;
        if y < 0 {
            assert(ai == -yi);
            vstd::arithmetic::div_mod::lemma_fundamental_div_mod(ai, di);
            vstd::arithmetic::div_mod::lemma_fundamental_div_mod(yi, di);
            if ai % di == 0 {
                let k = ai / di;
                assert(yi == (-k) * di) by (nonlinear_arith)
                    requires
                        ai == di * k + 0,
                        yi == -ai,
                ;
                vstd::arithmetic::div_mod::lemma_mod_multiples_basic(-k, di);
            }
            if yi % di == 0 {
                let k = yi / di;
                assert(ai == (-k) * di) by (nonlinear_arith)
                    requires
                        yi == di * k + 0,
                        yi == -ai,
                ;
                vstd::arithmetic::div_mod::lemma_mod_multiples_basic(-k, di);
            }
        }
    }
    m == 0
}

/// Whether `year` is a leap year of the Gregorian calendar.
pub fn is_leap_year(year: i32) -> (r: bool)
    ensures
        r == spec_is_leap_year(year as int),
{
    divides(year, 4) && (!divides(year, 100) || divides(year, 400))
}

/// The number of days of a month, with February by the leap-year rule.
pub fn days_in_month(year: i32, month: u32) -> (r: u32)
    ensures
        r as int == spec_days_in_month(year as int, month as int),
{
    match month {
        1 | 3 | 5 | 7 | 8 | 10 | 12 => 31,
        4 | 6 | 9 | 11 => 30,
        2 => {
            if is_leap_year(year) {
                29
            } else {
                28
            }
        },
        _ => 30,
    }
}

/// The days of the twelve months of a year add up to 366 in a leap year
/// and to 365 otherwise.
pub proof fn lemma_year_length(year: int)
    ensures
        spec_days_in_month(year, 1) + spec_days_in_month(year, 2) + spec_days_in_month(year, 3)
            + spec_days_in_month(year, 4) + spec_days_in_month(year, 5) + spec_days_in_month(
            year,
            6,
        ) + spec_days_in_month(year, 7) + spec_days_in_month(year, 8) + spec_days_in_month(
            year,
            9,
        ) + spec_days_in_month(year, 10) + spec_days_in_month(year, 11) + spec_days_in_month(
            year,
            12,
        ) == if spec_is_leap_year(year) { 366int } else { 365int },
{
}

// ---------------------------------------------------------------------------
// Timestamps as stored with receipts: "YYYY-MM-DD HH:MM:SS".
// ---------------------------------------------------------------------------

/// `n` as `{:02}` prints it.
pub open spec fn two_digits(n: int) -> Seq<char> {
    padded_int_text(n, 2)
}

/// The first instant of a month as the month queries write it:
/// `{:04}-{:02}-01 00:00:00`.
pub open spec fn month_start_text(year: int, month: int) -> Seq<char> {
    padded_int_text(year, 4) + seq!['-'] + two_digits(month) + "-01 00:00:00"@
}

fn push_month_start(s: &mut String, year: i32, month: u32)
    ensures
        final(s)@ == old(s)@ + month_start_text(year as int, month as int),
{
    let ghost start = s@;
    push_padded_i64(s, year as i64, 4);
    push_char(s, '-');
    push_padded_i64(s, month as i64, 2);
    push_str(s, "-01 00:00:00");
    assert(s@ =~= start + month_start_text(year as int, month as int));
}

/// The first instant of a month, `{:04}-{:02}-01 00:00:00`.
pub fn month_start(year: i32, month: u32) -> (r: String)
    ensures
        r@ == month_start_text(year as int, month as int),
{
    let mut s = String::new();
    push_month_start(&mut s, year, month);
    s
}

/// The half-open range of stored timestamps that belong to a month: from
/// its first instant to the first instant of the next month.
pub fn month_range(year: i32, month: u32) -> (r: (String, String))
    requires
        month == 12 ==> year < i32::MAX,
        month != 12 ==> month < u32::MAX,
    ensures
        r.0@ == month_start_text(year as int, month as int),
        r.1@ == month_start_text(
            spec_next_month(year as int, month as int).0,
            spec_next_month(year as int, month as int).1,
        ),
{
    let start = month_start(year, month);
    let (ny, nm) = next_month(year, month);
    let end = month_start(ny, nm);
    (start, end)
}

/// The first instant of the six-month trend window that ends with the given
/// month.
pub fn trend_start_date(year: i32, month: i32) -> (r: String)
    requires
        trend_start_fits(year as int, month as int),
    ensures
        r@ == month_start_text(spec_trend_start(year as int, month as int).0, spec_trend_start(
            year as int,
            month as int,
        ).1),
{
    let (y, m) = trend_start(year, month);
    month_start(y, m as u32)
}

/// Whether the month (y, m) lies in the six-month trend window that ends
/// with the current month (year, month): from five months before it up to
/// the current month itself.
pub open spec fn in_trend_window(y: int, m: int, year: int, month: int) -> bool {
    month_index(year, month) - 5 <= month_index(y, m) <= month_index(year, month)
}

/// The trend window opens with the month that `trend_start` gives: a month
/// lies in it exactly when it is no earlier than that first month and no
/// later than the current month.
pub proof fn lemma_trend_window_opens_at_start(y: int, m: int, year: int, month: int)
    ensures
        in_trend_window(y, m, year, month) <==> month_index(
            spec_trend_start(year, month).0,
            spec_trend_start(year, month).1,
        ) <= month_index(y, m) <= month_index(year, month),
{
}

/// The positions, in order, of the months of `months` that lie in the
/// six-month trend window ending with (year, month); months before the
/// window or after the current month are left out.
pub fn trend_window_positions(months: &Vec<(i32, i32)>, year: i32, month: i32) -> (r: Vec<usize>)
    ensures
        forall|k: int|
            0 <= k < r@.len() ==> #[trigger] r@[k] < months@.len() && in_trend_window(
                months@[r@[k] as int].0 as int,
                months@[r@[k] as int].1 as int,
                year as int,
                month as int,
            ),
        forall|k: int, l: int| 0 <= k < l < r@.len() ==> #[trigger] r@[k] < #[trigger] r@[l],
        forall|i: int|
            0 <= i < months@.len() && in_trend_window(
                #[trigger] months@[i].0 as int,
                months@[i].1 as int,
                year as int,
                month as int,
            ) ==> r@.contains(i as usize),
{
    let current: i64 = 12 * (year as i64) + (month as i64) - 1;
    let mut r: Vec<usize> = Vec::new();
    let mut i: usize = 0;
    while i < months.len()
        invariant
            i <= months@.len(),
            current == month_index(year as int, month as int),
            forall|k: int|
                0 <= k < r@.len() ==> #[trigger] r@[k] < i && in_trend_window(
                    months@[r@[k] as int].0 as int,
                    months@[r@[k] as int].1 as int,
                    year as int,
                    month as int,
                ),
            forall|k: int, l: int| 0 <= k < l < r@.len() ==> #[trigger] r@[k] < #[trigger] r@[l],
            forall|j: int|
                0 <= j < i && in_trend_window(
                    #[trigger] months@[j].0 as int,
                    months@[j].1 as int,
                    year as int,
                    month as int,
                ) ==> r@.contains(j as usize),
        decreases months@.len() - i,
    {
        let (y, m) = months[i];
        let index: i64 = 12 * (y as i64) + (m as i64) - 1;
        if current - 5 <= index && index <= current {
            let ghost old_r = r@;
            r.push(i);
            proof {
                assert forall|j: int|
                    0 <= j < i + 1 && in_trend_window(
                        #[trigger] months@[j].0 as int,
                        months@[j].1 as int,
                        year as int,
                        month as int,
                    ) implies r@.contains(j as usize) by {
                    if j < i {
                        let k = choose|k: int| 0 <= k < old_r.len() && old_r[k] == j as usize;
                        assert(r@[k] == j as usize);
                    } else {
                        assert(r@[old_r.len() as int] == j as usize);
                    }
                }
            }
        } else {
            proof {
                assert forall|j: int|
                    0 <= j < i + 1 && in_trend_window(
                        #[trigger] months@[j].0 as int,
                        months@[j].1 as int,
                        year as int,
                        month as int,
                    ) implies r@.contains(j as usize) by {
                    if j == i {
                        assert(months@[j] == (y, m));
                    }
                }
            }
        }
        i = i + 1;
    }
    r
}

/// A local date and time of day, as the clock gives it.
pub struct LocalTime {
    pub year: i32,
    pub month: u32,
    pub day: u32,
    pub hour: u32,
    pub minute: u32,
    pub second: u32,
    /// Nanoseconds since the whole second; 1_000_000_000 and more stand for
    /// a leap second.
    pub nanosecond: u32,
}

impl LocalTime {
    /// The ranges that every clock reading keeps.
    pub open spec fn well_formed(self) -> bool {
        &&& 1 <= self.month <= 12
        &&& 1 <= self.day <= 31
        &&& self.hour < 24
        &&& self.minute < 60
        &&& self.second < 60
        &&& self.nanosecond < 2_000_000_000
    }
}

/// Reads the local clock with `chrono::Local::now` and takes the reading
/// apart with chrono's `Datelike` and `Timelike` accessors. The contract
/// states only the ranges that chrono documents for each field (month
/// 1..=12, day 1..=31, hour 0..=23, minute and second 0..=59, nanosecond
/// below 2_000_000_000 with a leap second above 999_999_999), and that the
/// day exists in its month, as every chrono date does; which
/// instant is read is left unsaid, as it depends on the time. chrono
/// panics where the system time lies before 1970 or no local time type can
/// be selected, which no argument can rule out.
#[verifier::external_body]
fn read_local_clock() -> (t: LocalTime)
    ensures
        t.well_formed(),
        t.day <= spec_days_in_month(t.year as int, t.month as int),
{
    let now = chrono::Local::now();
    LocalTime {
        year: now.year(),
        month: now.month(),
        day: now.day(),
        hour: now.hour(),
        minute: now.minute(),
        second: now.second(),
        nanosecond: now.nanosecond(),
    }
}

/// The current local date and time.
pub fn now() -> (t: LocalTime)
    ensures
        t.well_formed(),
        t.day <= spec_days_in_month(t.year as int, t.month as int),
{
    read_local_clock()
}

/// A year as `%Y` writes it: four digits with zeros in front, and a sign in
/// front of years before 0 or after 9999.
pub open spec fn year_text(year: int) -> Seq<char> {
    if 0 <= year <= 9999 {
        padded_int_text(year, 4)
    } else if year < 0 {
        seq!['-'] + padded_int_text(-year, 4)
    } else {
        seq!['+'] + padded_int_text(year, 4)
    }
}

/// A clock reading as `%Y-%m-%d %H:%M:%S` writes it; a leap second shows as
/// second 60.
pub open spec fn timestamp_text(t: LocalTime) -> Seq<char> {
    year_text(t.year as int) + seq!['-'] + two_digits(t.month as int) + seq!['-'] + two_digits(
        t.day as int,
    ) + seq![' '] + two_digits(t.hour as int) + seq![':'] + two_digits(t.minute as int) + seq![':']
        + two_digits(t.second as int + t.nanosecond as int / 1_000_000_000)
}

/// Writes a clock reading as `%Y-%m-%d %H:%M:%S`.
pub fn format_timestamp(t: &LocalTime) -> (r: String)
    requires
        t.well_formed(),
    ensures
        r@ == timestamp_text(*t),
{
    let mut s = String::new();
    let y = t.year as i64;
    if 0 <= y && y <= 9999 {
        push_padded_i64(&mut s, y, 4);
    } else if y < 0 {
        push_char(&mut s, '-');
        push_padded_i64(&mut s, -y, 4);
    } else {
        push_char(&mut s, '+');
        push_padded_i64(&mut s, y, 4);
    }
    let ghost after_year = s@;
    assert(after_year =~= year_text(t.year as int));
    push_char(&mut s, '-');
    push_padded_i64(&mut s, t.month as i64, 2);
    push_char(&mut s, '-');
    push_padded_i64(&mut s, t.day as i64, 2);
    push_char(&mut s, ' ');
    push_padded_i64(&mut s, t.hour as i64, 2);
    push_char(&mut s, ':');
    push_padded_i64(&mut s, t.minute as i64, 2);
    push_char(&mut s, ':');
    let sec = t.second + t.nanosecond / 1_000_000_000;
    push_padded_i64(&mut s, sec as i64, 2);
    assert(s@ =~= timestamp_text(*t));
    s
}

// ---------------------------------------------------------------------------
// Dates as shown in replies.
// ---------------------------------------------------------------------------

/// The part of a stored timestamp that replies show: its first ten bytes
/// when they end on a character boundary (`s.get(..10)`), the whole text
/// otherwise.
pub open spec fn date_display_bytes(s: Seq<u8>) -> Seq<u8> {
    if s.len() >= 10 && vstd::utf8::is_char_boundary(s, 10) {
        s.subrange(0, 10)
    } else {
        s
    }
}

/// In an ASCII text every position up to its length is a character boundary.
proof fn lemma_ascii_boundary(s: &str, i: int)
    requires
        s.is_ascii(),
        0 <= i <= s@.len(),
    ensures
        s.spec_bytes().len() == s@.len(),
        vstd::utf8::is_char_boundary(s.spec_bytes(), i),
{
    broadcast use vstd::string::group_string_axioms;
    let b = s.spec_bytes();
    vstd::utf8::encode_utf8_valid_utf8(s@);
    vstd::utf8::is_ascii_chars_encode_utf8(s@);
    assert(b.len() == s@.len());
    if i == b.len() {
        vstd::utf8::is_char_boundary_start_end_of_seq(b);
    } else {
        assert(b[i] == s@[i] as u8);
        vstd::utf8::is_char_boundary_iff_not_is_continuation_byte(b, i);
    }
}

/// The characters that replies show of a stored timestamp `d`: those of
/// its first ten bytes when they end on a character boundary, all of `d`
/// otherwise.
pub open spec fn shown_date(d: Seq<char>) -> Seq<char> {
    vstd::utf8::decode_utf8(date_display_bytes(vstd::utf8::encode_utf8(d)))
}

/// `s.get(..10).unwrap_or(s)`: the date part of a stored timestamp.
pub fn date_display(s: &str) -> (r: &str)
    ensures
        r.spec_bytes() == date_display_bytes(s.spec_bytes()),
        r@ == shown_date(s@),
        s.is_ascii() ==> r@ == if s@.len() >= 10 { s@.subrange(0, 10) } else { s@ },
{
    broadcast use vstd::string::group_string_axioms;
    proof {
        vstd::utf8::encode_utf8_valid_utf8(s@);
        vstd::utf8::encode_utf8_decode_utf8(s@);
    }
    let r = date_display_part(s);
    proof {
        vstd::utf8::encode_utf8_decode_utf8(r@);
    }
    r
}

fn date_display_part(s: &str) -> (r: &str)
    ensures
        r.spec_bytes() == date_display_bytes(s.spec_bytes()),
        s.is_ascii() ==> r@ == if s@.len() >= 10 { s@.subrange(0, 10) } else { s@ },
{
    broadcast use vstd::string::group_string_axioms;
    proof {
        vstd::utf8::encode_utf8_valid_utf8(s@);
    }
    if s.is_char_boundary(10) {
        assert(s.spec_bytes().len() >= 10);
        if s.is_ascii() {
            proof {
                lemma_ascii_boundary(s, 0);
            }
            let r = s.substring_ascii(0, 10);
            proof {
                vstd::utf8::is_ascii_chars_encode_utf8(s@);
                vstd::utf8::is_ascii_chars_encode_utf8(r@);
            }
            assert(r@.len() == 10);
            assert(r.spec_bytes().len() == 10);
            assert(forall|i: int| 0 <= i < 10 ==> r.spec_bytes()[i] == s.spec_bytes()[i]);
            assert(r.spec_bytes() =~= s.spec_bytes().subrange(0, 10));
            assert(r@ == s@.subrange(0, 10));
            r
        } else {
            let (a, _b) = s.split_at(10);
            a
        }
    } else {
        proof {
            if s.is_ascii() && s@.len() >= 10 {
                lemma_ascii_boundary(s, 10);
            }
        }
        s
    }
}

} // verus!
