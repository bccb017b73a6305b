//! How stored timestamps compare as text, and why the month range of a
//! query holds exactly the receipts of that month.

use vstd::prelude::*;

use crate::photo::spec_stored_date;
use vstd::utf8::{
    encode_utf8, encode_utf8_decode_utf8, encode_utf8_valid_utf8, is_ascii_chars,
    is_ascii_chars_encode_utf8, is_char_boundary, is_char_boundary_iff_not_is_continuation_byte,
    is_char_boundary_start_end_of_seq,
};
use crate::calendar::{
    month_start_text, shown_date, spec_next_month, timestamp_text, two_digits, year_text, LocalTime,
};
use crate::text::{
    all_digits, digits, digits_value, is_digit, lemma_digits_len, lemma_padded_nonneg,
    padded_int_text, repeat_char,
};

verus! {

/// `a` sorts strictly before `b`, comparing character by character; on
/// ASCII text this is the byte order in which SQLite compares text.
pub open spec fn lex_lt(a: Seq<char>, b: Seq<char>) -> bool
    decreases a.len(),
{
    if b.len() == 0 {
        false
    } else if a.len() == 0 {
        true
    } else if a[0] != b[0] {
        (a[0] as int) < (b[0] as int)
    } else {
        lex_lt(a.drop_first(), b.drop_first())
    }
}

/// `a` sorts before `b` or equals it.
pub open spec fn lex_le(a: Seq<char>, b: Seq<char>) -> bool {
    a == b || lex_lt(a, b)
}

/// Comparing two texts that begin with parts of equal length compares the
/// parts first, and the rests only where the parts are equal.
pub proof fn lemma_lex_concat(a1: Seq<char>, a2: Seq<char>, r1: Seq<char>, r2: Seq<char>)
    requires
        a1.len() == a2.len(),
    ensures
        lex_lt(a1 + r1, a2 + r2) == (lex_lt(a1, a2) || (a1 == a2 && lex_lt(r1, r2))),
        a1 != a2 ==> (lex_lt(a1, a2) || lex_lt(a2, a1)),
        !(lex_lt(a1, a2) && lex_lt(a2, a1)),
    decreases a1.len(),
{
    if a1.len() == 0 {
        assert(a1 =~= a2);
        assert(a1 + r1 =~= r1);
        assert(a2 + r2 =~= r2);
    } else {
        assert((a1 + r1)[0] == a1[0]);
        assert((a2 + r2)[0] == a2[0]);
        assert((a1 + r1).drop_first() =~= a1.drop_first() + r1);
        assert((a2 + r2).drop_first() =~= a2.drop_first() + r2);
        lemma_lex_concat(a1.drop_first(), a2.drop_first(), r1, r2);
        if a1[0] == a2[0] {
            if a1.drop_first() == a2.drop_first() {
                assert forall|i: int| 0 <= i < a1.len() implies a1[i] == a2[i] by {
                    if i > 0 {
                        assert(a1[i] == a1.drop_first()[i - 1]);
                        assert(a2[i] == a2.drop_first()[i - 1]);
                    }
                }
                assert(a1 =~= a2);
            }
            if a1 == a2 {
                assert(a1.drop_first() == a2.drop_first());
            }
        }
    }
}

/// Two digit strings of one length compare as text as their values
/// compare as numbers.
pub proof fn lemma_digits_order(a: Seq<char>, b: Seq<char>)
    requires
        a.len() == b.len(),
        all_digits(a),
        all_digits(b),
    ensures
        lex_lt(a, b) == (digits_value(a) < digits_value(b)),
        (a == b) == (digits_value(a) == digits_value(b)),
    decreases a.len(),
{
    if a.len() == 0 {
        assert(a =~= b);
    } else {
        let a0 = a.drop_last();
        let b0 = b.drop_last();
        let x = a.last();
        let y = b.last();
        assert(all_digits(a0)) by {
            assert forall|i: int| 0 <= i < a0.len() implies is_digit(#[trigger] a0[i]) by {
                assert(a0[i] == a[i]);
            }
        }
        assert(all_digits(b0)) by {
            assert forall|i: int| 0 <= i < b0.len() implies is_digit(#[trigger] b0[i]) by {
                assert(b0[i] == b[i]);
            }
        }
        assert(is_digit(x) && is_digit(y)) by {
            assert(is_digit(a[a.len() - 1]));
            assert(is_digit(b[b.len() - 1]));
        }
        lemma_digits_order(a0, b0);
        assert(a =~= a0 + seq![x]);
        assert(b =~= b0 + seq![y]);
        lemma_lex_concat(a0, b0, seq![x], seq![y]);
        assert(seq![x].drop_first() =~= Seq::<char>::empty());
        assert(seq![y].drop_first() =~= Seq::<char>::empty());
        assert(lex_lt(seq![x], seq![y]) == ((x as int) < (y as int))) by {
            reveal_with_fuel(lex_lt, 2);
        }
        let va = digits_value(a0);
        let vb = digits_value(b0);
        let dx = (x as int) - ('0' as int);
        let dy = (y as int) - ('0' as int);
        assert(digits_value(a) == va * 10 + dx);
        assert(digits_value(b) == vb * 10 + dy);
        assert(0 <= dx < 10 && 0 <= dy < 10);
        assert(va < vb ==> va * 10 + dx < vb * 10 + dy) by (nonlinear_arith)
            requires
                0 <= dx < 10,
                0 <= dy < 10,
        ;
        assert(vb < va ==> vb * 10 + dy < va * 10 + dx) by (nonlinear_arith)
            requires
                0 <= dx < 10,
                0 <= dy < 10,
        ;
        if a == b {
            assert(a0 == b0);
        }
        if a0 == b0 && x == y {
            assert(a =~= b);
        }
    }
}

/// `padded_int_text(n, w)` of a number with at most `w` digits has exactly
/// `w` characters, all digits, spelling `n`.
pub proof fn lemma_padded_field(n: nat, w: nat)
    requires
        digits(n).len() <= w,
    ensures
        padded_int_text(n as int, w).len() == w,
        all_digits(padded_int_text(n as int, w)),
        digits_value(padded_int_text(n as int, w)) == n,
{
    lemma_padded_nonneg(n, w);
    let fill: nat = (w - digits(n).len()) as nat;
    assert(padded_int_text(n as int, w) =~= repeat_char('0', fill) + digits(n));
}

/// Extending two texts of equal length by one separator and a field of
/// `w` digits each: the texts decide, and where they are equal the fields.
proof fn lemma_extend(p1: Seq<char>, p2: Seq<char>, c: char, f: nat, g: nat, w: nat)
    requires
        p1.len() == p2.len(),
        digits(f).len() <= w,
        digits(g).len() <= w,
    ensures
        lex_lt(p1 + seq![c] + padded_int_text(f as int, w), p2 + seq![c] + padded_int_text(g as int, w))
            == (lex_lt(p1, p2) || (p1 == p2 && f < g)),
        (p1 + seq![c] + padded_int_text(f as int, w) == p2 + seq![c] + padded_int_text(g as int, w))
            == (p1 == p2 && f == g),
        (p1 + seq![c] + padded_int_text(f as int, w)).len() == p1.len() + 1 + w,
{
    let ff = padded_int_text(f as int, w);
    let gg = padded_int_text(g as int, w);
    lemma_padded_field(f, w);
    lemma_padded_field(g, w);
    lemma_digits_order(ff, gg);
    lemma_lex_concat(p1 + seq![c], p2 + seq![c], ff, gg);
    lemma_lex_concat(p1, p2, seq![c], seq![c]);
    assert(!lex_lt(seq![c], seq![c])) by {
        reveal_with_fuel(lex_lt, 2);
        assert(seq![c].drop_first() =~= Seq::<char>::empty());
    }
    lemma_equal_parts(p1 + seq![c], p2 + seq![c], ff, gg);
    lemma_equal_parts(p1, p2, seq![c], seq![c]);
}

/// A stored timestamp up to the month: `YYYY-MM`.
pub open spec fn stamp_to_month(y: int, mo: int) -> Seq<char> {
    padded_int_text(y, 4) + seq!['-'] + two_digits(mo)
}

/// A stored timestamp up to the day: `YYYY-MM-DD`.
pub open spec fn stamp_to_day(y: int, mo: int, d: int) -> Seq<char> {
    stamp_to_month(y, mo) + seq!['-'] + two_digits(d)
}

/// A stored timestamp up to the hour: `YYYY-MM-DD HH`.
pub open spec fn stamp_to_hour(y: int, mo: int, d: int, h: int) -> Seq<char> {
    stamp_to_day(y, mo, d) + seq![' '] + two_digits(h)
}

/// A stored timestamp up to the minute: `YYYY-MM-DD HH:MM`.
pub open spec fn stamp_to_minute(y: int, mo: int, d: int, h: int, mi: int) -> Seq<char> {
    stamp_to_hour(y, mo, d, h) + seq![':'] + two_digits(mi)
}

/// A stored timestamp from its fields: `YYYY-MM-DD HH:MM:SS`.
pub open spec fn stamp(y: int, mo: int, d: int, h: int, mi: int, s: int) -> Seq<char> {
    stamp_to_minute(y, mo, d, h, mi) + seq![':'] + two_digits(s)
}

/// The order of timestamp fields from the hours on.
pub open spec fn time_lt(a: (int, int, int, int, int, int), b: (int, int, int, int, int, int)) -> bool {
    a.3 < b.3 || (a.3 == b.3 && (a.4 < b.4 || (a.4 == b.4 && a.5 < b.5)))
}

/// The order of timestamp fields from the month on.
pub open spec fn date_lt(a: (int, int, int, int, int, int), b: (int, int, int, int, int, int)) -> bool {
    a.1 < b.1 || (a.1 == b.1 && (a.2 < b.2 || (a.2 == b.2 && time_lt(a, b))))
}

/// The fields of a timestamp in the order in which they count.
pub open spec fn stamp_lt(a: (int, int, int, int, int, int), b: (int, int, int, int, int, int)) -> bool {
    a.0 < b.0 || (a.0 == b.0 && date_lt(a, b))
}

/// All fields fit their widths: four digits for the year, two for the rest.
pub open spec fn stamp_fits(a: (int, int, int, int, int, int)) -> bool {
    0 <= a.0 <= 9999 && 0 <= a.1 < 100 && 0 <= a.2 < 100 && 0 <= a.3 < 100 && 0 <= a.4 < 100 && 0
        <= a.5 < 100
}

proof fn lemma_field_widths(n: nat, w: nat)
    requires
        (w == 2 && n < 100) || (w == 4 && n < 10000),
    ensures
        digits(n).len() <= w,
{
    lemma_digits_len(n);
}

/// Timestamps with fields in range sort as text exactly as their fields
/// sort, and are equal as text exactly when their fields are.
pub proof fn lemma_stamp_order(a: (int, int, int, int, int, int), b: (int, int, int, int, int, int))
    requires
        stamp_fits(a),
        stamp_fits(b),
    ensures
        lex_lt(stamp(a.0, a.1, a.2, a.3, a.4, a.5), stamp(b.0, b.1, b.2, b.3, b.4, b.5)) == stamp_lt(a, b),
        (stamp(a.0, a.1, a.2, a.3, a.4, a.5) == stamp(b.0, b.1, b.2, b.3, b.4, b.5)) == (a == b),
{
    lemma_field_widths(a.0 as nat, 4);
    lemma_field_widths(b.0 as nat, 4);
    lemma_field_widths(a.1 as nat, 2);
    lemma_field_widths(b.1 as nat, 2);
    lemma_field_widths(a.2 as nat, 2);
    lemma_field_widths(b.2 as nat, 2);
    lemma_field_widths(a.3 as nat, 2);
    lemma_field_widths(b.3 as nat, 2);
    lemma_field_widths(a.4 as nat, 2);
    lemma_field_widths(b.4 as nat, 2);
    lemma_field_widths(a.5 as nat, 2);
    lemma_field_widths(b.5 as nat, 2);
    let ya = padded_int_text(a.0, 4);
    let yb = padded_int_text(b.0, 4);
    lemma_padded_field(a.0 as nat, 4);
    lemma_padded_field(b.0 as nat, 4);
    lemma_digits_order(ya, yb);
    lemma_extend(ya, yb, '-', a.1 as nat, b.1 as nat, 2);
    let ma = stamp_to_month(a.0, a.1);
    let mb = stamp_to_month(b.0, b.1);
    lemma_extend(ma, mb, '-', a.2 as nat, b.2 as nat, 2);
    let da = stamp_to_day(a.0, a.1, a.2);
    let db = stamp_to_day(b.0, b.1, b.2);
    lemma_extend(da, db, ' ', a.3 as nat, b.3 as nat, 2);
    let ha = stamp_to_hour(a.0, a.1, a.2, a.3);
    let hb = stamp_to_hour(b.0, b.1, b.2, b.3);
    lemma_extend(ha, hb, ':', a.4 as nat, b.4 as nat, 2);
    let ia = stamp_to_minute(a.0, a.1, a.2, a.3, a.4);
    let ib = stamp_to_minute(b.0, b.1, b.2, b.3, b.4);
    lemma_extend(ia, ib, ':', a.5 as nat, b.5 as nat, 2);
}

/// Two concatenations with heads of equal length are equal exactly when the
/// heads and the rests are.
proof fn lemma_equal_parts(a1: Seq<char>, a2: Seq<char>, r1: Seq<char>, r2: Seq<char>)
    requires
        a1.len() == a2.len(),
    ensures
        (a1 + r1 == a2 + r2) == (a1 == a2 && r1 == r2),
{
    if a1 + r1 == a2 + r2 {
        assert(a1 =~= (a1 + r1).subrange(0, a1.len() as int));
        assert(a2 =~= (a2 + r2).subrange(0, a2.len() as int));
        assert(r1 =~= (a1 + r1).subrange(a1.len() as int, (a1 + r1).len() as int));
        assert(r2 =~= (a2 + r2).subrange(a2.len() as int, (a2 + r2).len() as int));
    }
}

/// The fields of a clock reading, with a leap second counted as second 60.
pub open spec fn reading_fields(t: LocalTime) -> (int, int, int, int, int, int) {
    (
        t.year as int,
        t.month as int,
        t.day as int,
        t.hour as int,
        t.minute as int,
        t.second as int + t.nanosecond as int / 1_000_000_000,
    )
}

/// A clock reading in the years 0..=9999 is stored as the timestamp of its
/// fields.
pub proof fn lemma_reading_stamp(t: LocalTime)
    requires
        t.well_formed(),
        0 <= t.year <= 9999,
    ensures
        timestamp_text(t) == stamp(
            reading_fields(t).0,
            reading_fields(t).1,
            reading_fields(t).2,
            reading_fields(t).3,
            reading_fields(t).4,
            reading_fields(t).5,
        ),
{
    assert(year_text(t.year as int) == padded_int_text(t.year as int, 4));
}

/// The first instant of a month is the timestamp of its day 1 at midnight.
pub proof fn lemma_month_start_stamp(year: int, month: int)
    ensures
        month_start_text(year, month) == stamp(year, month, 1, 0, 0, 0),
{
    reveal_strlit("-01 00:00:00");
    assert(digits(1) =~= seq!['1']);
    assert(digits(0) =~= seq!['0']);
    assert(repeat_char('0', 1) =~= seq!['0']);
    assert(two_digits(1) =~= seq!['0', '1']);
    assert(two_digits(0) =~= seq!['0', '0']);
    assert(month_start_text(year, month) =~= stamp(year, month, 1, 0, 0, 0));
}

/// The range that a month query uses, from the first instant of the month
/// to that of the next, holds the stored timestamp of a clock reading
/// exactly when the reading falls in that month.
pub proof fn lemma_month_range_selects_month(t: LocalTime, year: int, month: int)
    requires
        t.well_formed(),
        0 <= t.year <= 9999,
        0 <= year,
        1 <= month <= 12,
        spec_next_month(year, month).0 <= 9999,
    ensures
        (lex_le(month_start_text(year, month), timestamp_text(t)) && lex_lt(
            timestamp_text(t),
            month_start_text(spec_next_month(year, month).0, spec_next_month(year, month).1),
        )) <==> (t.year == year && t.month == month),
{
    let n = spec_next_month(year, month);
    let f = reading_fields(t);
    lemma_reading_stamp(t);
    lemma_month_start_stamp(year, month);
    lemma_month_start_stamp(n.0, n.1);
    let s = (year, month, 1int, 0int, 0int, 0int);
    let e = (n.0, n.1, 1int, 0int, 0int, 0int);
    lemma_stamp_order(s, f);
    lemma_stamp_order(f, e);
}

/// A receipt whose recognised date is `YYYY-MM-DD` is stored at midnight of
/// that day, and so falls in the range of a month query exactly when the
/// date lies in that month.
pub proof fn lemma_recognised_date_in_month(
    y: int,
    m: int,
    d: int,
    now: LocalTime,
    year: int,
    month: int,
)
    requires
        0 <= y <= 9999,
        1 <= m <= 12,
        1 <= d <= 31,
        0 <= year,
        1 <= month <= 12,
        spec_next_month(year, month).0 <= 9999,
    ensures
        ({
            let stored = spec_stored_date(Some(stamp_to_day(y, m, d)), now);
            &&& stored == stamp(y, m, d, 0, 0, 0)
            &&& (lex_le(month_start_text(year, month), stored) && lex_lt(
                stored,
                month_start_text(spec_next_month(year, month).0, spec_next_month(year, month).1),
            )) <==> (y == year && m == month)
        }),
{
    let n = spec_next_month(year, month);
    let day = stamp_to_day(y, m, d);
    reveal_strlit("UNKNOWN");
    reveal_strlit(" 00:00:00");
    lemma_field_widths(y as nat, 4);
    lemma_field_widths(m as nat, 2);
    lemma_field_widths(d as nat, 2);
    lemma_padded_field(y as nat, 4);
    lemma_padded_field(m as nat, 2);
    lemma_padded_field(d as nat, 2);
    assert(day.len() == 10);
    assert(day != "UNKNOWN"@);
    assert(digits(0) =~= seq!['0']);
    assert(repeat_char('0', 1) =~= seq!['0']);
    assert(two_digits(0) =~= seq!['0', '0']);
    assert(day + " 00:00:00"@ =~= stamp(y, m, d, 0, 0, 0));
    lemma_month_start_stamp(year, month);
    lemma_month_start_stamp(n.0, n.1);
    lemma_stamp_order((year, month, 1, 0, 0, 0), (y, m, d, 0, 0, 0));
    lemma_stamp_order((y, m, d, 0, 0, 0), (n.0, n.1, 1, 0, 0, 0));
}

/// What replies show of an ASCII timestamp: its first ten characters, or
/// all of it when it is shorter.
pub proof fn lemma_shown_date_ascii(d: Seq<char>)
    requires
        is_ascii_chars(d),
    ensures
        shown_date(d) == if d.len() >= 10 { d.subrange(0, 10) } else { d },
{
    let b = encode_utf8(d);
    encode_utf8_valid_utf8(d);
    is_ascii_chars_encode_utf8(d);
    encode_utf8_decode_utf8(d);
    if d.len() >= 10 {
        if d.len() == 10 {
            is_char_boundary_start_end_of_seq(b);
        } else {
            assert(b[10] == d[10] as u8);
            is_char_boundary_iff_not_is_continuation_byte(b, 10);
        }
        let head = d.subrange(0, 10);
        assert(is_ascii_chars(head)) by {
            assert forall|i: int| 0 <= i < head.len() implies '\0' <= #[trigger] head[i] <= '\u{7f}' by {
                assert(head[i] == d[i]);
            }
        }
        is_ascii_chars_encode_utf8(head);
        encode_utf8_decode_utf8(head);
        assert(encode_utf8(head) =~= b.subrange(0, 10));
    } else {
        assert(!is_char_boundary(b, 10));
    }
}

/// Replies show the stored timestamp of a clock reading by its date,
/// `YYYY-MM-DD`.
pub proof fn lemma_reading_shows_its_date(t: LocalTime)
    requires
        t.well_formed(),
        0 <= t.year <= 9999,
    ensures
        shown_date(timestamp_text(t)) == stamp_to_day(t.year as int, t.month as int, t.day as int),
{
    let f = reading_fields(t);
    lemma_reading_stamp(t);
    lemma_field_widths(f.0 as nat, 4);
    lemma_field_widths(f.1 as nat, 2);
    lemma_field_widths(f.2 as nat, 2);
    lemma_field_widths(f.3 as nat, 2);
    lemma_field_widths(f.4 as nat, 2);
    lemma_field_widths(f.5 as nat, 2);
    lemma_padded_field(f.0 as nat, 4);
    lemma_padded_field(f.1 as nat, 2);
    lemma_padded_field(f.2 as nat, 2);
    lemma_padded_field(f.3 as nat, 2);
    lemma_padded_field(f.4 as nat, 2);
    lemma_padded_field(f.5 as nat, 2);
    let day = stamp_to_day(f.0, f.1, f.2);
    let full = stamp(f.0, f.1, f.2, f.3, f.4, f.5);
    assert(day.len() == 10);
    let rest = seq![' '] + two_digits(f.3) + seq![':'] + two_digits(f.4) + seq![':'] + two_digits(f.5);
    assert(full =~= day + rest);
    assert(is_ascii_chars(full)) by {
        assert forall|i: int| 0 <= i < full.len() implies '\0' <= #[trigger] full[i] <= '\u{7f}' by {
            lemma_stamp_chars(f, i);
        }
    }
    lemma_shown_date_ascii(full);
    assert(full.subrange(0, 10) =~= day);
}

/// Every character of a timestamp with fields in range is a digit or one
/// of `-`, ` `, `:`.
proof fn lemma_stamp_chars(f: (int, int, int, int, int, int), i: int)
    requires
        stamp_fits(f),
        0 <= i < stamp(f.0, f.1, f.2, f.3, f.4, f.5).len(),
    ensures
        '\0' <= stamp(f.0, f.1, f.2, f.3, f.4, f.5)[i] <= '\u{7f}',
{
    lemma_field_widths(f.0 as nat, 4);
    lemma_field_widths(f.1 as nat, 2);
    lemma_field_widths(f.2 as nat, 2);
    lemma_field_widths(f.3 as nat, 2);
    lemma_field_widths(f.4 as nat, 2);
    lemma_field_widths(f.5 as nat, 2);
    lemma_padded_field(f.0 as nat, 4);
    lemma_padded_field(f.1 as nat, 2);
    lemma_padded_field(f.2 as nat, 2);
    lemma_padded_field(f.3 as nat, 2);
    lemma_padded_field(f.4 as nat, 2);
    lemma_padded_field(f.5 as nat, 2);
    let s = stamp(f.0, f.1, f.2, f.3, f.4, f.5);
    // Positions: year 0..4, '-' 4, month 5..7, '-' 7, day 8..10, ' ' 10,
    // hour 11..13, ':' 13, minute 14..16, ':' 16, second 17..19.
    assert(s.len() == 19);
    if i < 4 {
        assert(s[i] == padded_int_text(f.0, 4)[i]);
        assert(is_digit(padded_int_text(f.0, 4)[i]));
    } else if i == 4 || i == 7 || i == 10 || i == 13 || i == 16 {
    } else if i < 7 {
        assert(s[i] == two_digits(f.1)[i - 5]);
        assert(is_digit(two_digits(f.1)[i - 5]));
    } else if i < 10 {
        assert(s[i] == two_digits(f.2)[i - 8]);
        assert(is_digit(two_digits(f.2)[i - 8]));
    } else if i < 13 {
        assert(s[i] == two_digits(f.3)[i - 11]);
        assert(is_digit(two_digits(f.3)[i - 11]));
    } else if i < 16 {
        assert(s[i] == two_digits(f.4)[i - 14]);
        assert(is_digit(two_digits(f.4)[i - 14]));
    } else {
        assert(s[i] == two_digits(f.5)[i - 17]);
        assert(is_digit(two_digits(f.5)[i - 17]));
    }
}

} // verus!
