use vstd::prelude::*;

use crate::category::{category_named, normalize_category, normalized_text};
use crate::text::{
    lemma_padded_nonneg, padded_int_text, parse_i32, parse_i32_spec, parse_integer, parse_u32,
    parse_u32_spec, trim, trimmed,
};

verus! {

/// What the argument of `/month` asks for.
#[derive(Debug, Clone, Copy, PartialEq, Eq, Structural)]
pub enum MonthQuery {
    /// No argument: the usage text is shown.
    Usage,
    /// Not two parts around a single `-`.
    InvalidFormat,
    /// Two parts, but not a year in 2020..=2100 and a month in 1..=12.
    InvalidDate,
    /// A month to report on.
    Month { year: i32, month: u32 },
}

/// `t` holds exactly one `-`, at position `k`.
pub open spec fn single_dash_at(t: Seq<char>, k: int) -> bool {
    &&& 0 <= k < t.len()
    &&& t[k] == '-'
    &&& forall|j: int| 0 <= j < t.len() && j != k ==> t[j] != '-'
}

/// What `/month <arg>` asks for: the argument is trimmed; empty asks for
/// the usage text; it must split on `-` into exactly two parts; the parts
/// are read as an `i32` year and a `u32` month (0 where they do not parse),
/// which must lie in 2020..=2100 and 1..=12.
pub open spec fn spec_month_query(arg: Seq<char>) -> MonthQuery {
    let t = trimmed(arg);
    if t.len() == 0 {
        MonthQuery::Usage
    } else if !(exists|k: int| single_dash_at(t, k)) {
        MonthQuery::InvalidFormat
    } else {
        let k = choose|k: int| single_dash_at(t, k);
        let year: int = match parse_i32_spec(t.subrange(0, k)) {
            Some(y) => y as int,
            None => 0,
        };
        let month: int = match parse_u32_spec(t.subrange(k + 1, t.len() as int)) {
            Some(m) => m as int,
            None => 0,
        };
        if 2020 <= year <= 2100 && 1 <= month <= 12 {
            MonthQuery::Month { year: year as i32, month: month as u32 }
        } else {
            MonthQuery::InvalidDate
        }
    }
}

/// A month written as `/month` expects it: `YYYY-MM`.
pub open spec fn year_month_text(year: int, month: int) -> Seq<char> {
    padded_int_text(year, 4) + seq!['-'] + padded_int_text(month, 2)
}

/// Reads the argument of `/month`.
pub fn parse_month_arg(arg: &str) -> (r: MonthQuery)
    ensures
        r == spec_month_query(arg@),
        forall|y: i32, m: u32|
            #![trigger year_month_text(y as int, m as int)]
            2020 <= y <= 2100 && 1 <= m <= 12 && arg@ == year_month_text(y as int, m as int)
                ==> r == (MonthQuery::Month { year: y, month: m }),
{
    let t = trim(arg);
    let n = t.unicode_len();
    let r = if n == 0 {
        MonthQuery::Usage
    } else {
        let mut first: usize = n;
        let mut second: usize = n;
        let mut i: usize = 0;
        while i < n
            invariant
                n == t@.len(),
                i <= n,
                first <= n,
                second <= n,
                first == n ==> forall|j: int| 0 <= j < i ==> t@[j] != '-',
                first < n ==> first < i && t@[first as int] == '-',
                first < n && second == n ==> forall|j: int|
                    0 <= j < i && j != first ==> t@[j] != '-',
                second < n ==> first < n && second < i && second != first && t@[second as int]
                    == '-',
            decreases n - i,
        {
            if t.get_char(i) == '-' {
                if first == n {
                    first = i;
                } else if second == n {
                    second = i;
                }
            }
            i = i + 1;
        }
        if first == n || second < n {
            assert(!(exists|k: int| single_dash_at(t@, k))) by {
                if exists|k: int| single_dash_at(t@, k) {
                    let k = choose|k: int| single_dash_at(t@, k);
                    if first < n {
                        assert(k == first);
                        assert(t@[second as int] == '-');
                    }
                }
            }
            MonthQuery::InvalidFormat
        } else {
            assert(single_dash_at(t@, first as int));
            assert(forall|k: int| single_dash_at(t@, k) ==> k == first);
            let year_part = t.substring_char(0, first);
            let month_part = t.substring_char(first + 1, n);
            let year: i32 = match parse_i32(year_part) {
                Some(y) => y,
                None => 0,
            };
            let month: u32 = match parse_u32(month_part) {
                Some(m) => m,
                None => 0,
            };
            if 2020 <= year && year <= 2100 && 1 <= month && month <= 12 {
                MonthQuery::Month { year, month }
            } else {
                MonthQuery::InvalidDate
            }
        }
    };
    assert forall|y: i32, m: u32|
        #![trigger year_month_text(y as int, m as int)]
        2020 <= y <= 2100 && 1 <= m <= 12 && arg@ == year_month_text(
            y as int,
            m as int,
        ) implies r == (MonthQuery::Month { year: y, month: m }) by {
        let ys = padded_int_text(y as int, 4);
        let ms = padded_int_text(m as int, 2);
        lemma_padded_nonneg(y as nat, 4);
        lemma_padded_nonneg(m as nat, 2);
        let text = year_month_text(y as int, m as int);
        assert(text =~= ys + seq!['-'] + ms);
        let k = ys.len() as int;
        assert(text[0] == ys[0]);
        assert(text.last() == ms.last());
        assert(t@ == arg@);
        assert(single_dash_at(text, k)) by {
            assert forall|j: int| 0 <= j < text.len() && j != k implies text[j] != '-' by {
                if j < k {
                    assert(text[j] == ys[j]);
                } else {
                    assert(text[j] == ms[j - k - 1]);
                }
            }
        }
        assert(text.subrange(0, k) =~= ys);
        assert(text.subrange(k + 1, text.len() as int) =~= ms);
        assert(parse_integer(ys, true) == Some(y as int));
        assert(parse_integer(ms, false) == Some(m as int));
    }
    r
}

/// What the argument of `/category` asks for.
#[derive(Debug, Clone)]
pub enum CategoryQuery {
    /// No argument: the list of categories is shown.
    Usage,
    /// A text that names no category; it is quoted back.
    Unknown(String),
    /// The stored name of the category asked for.
    Known(&'static str),
}

/// What `/category <arg>` asks for: the trimmed argument, looked up with
/// `normalize_category`.
pub open spec fn spec_category_query(arg: Seq<char>, r: CategoryQuery) -> bool {
    let t = trimmed(arg);
    if t.len() == 0 {
        r is Usage
    } else {
        match category_named(normalized_text(t)) {
            Some(c) => r is Known && r->Known_0@ == c.spec_name(),
            None => r is Unknown && r->Unknown_0@ == t,
        }
    }
}

/// Reads the argument of `/category`.
pub fn parse_category_arg(arg: &str) -> (r: CategoryQuery)
    ensures
        spec_category_query(arg@, r),
{
    let t = trim(arg);
    if t.unicode_len() == 0 {
        return CategoryQuery::Usage;
    }
    match normalize_category(t) {
        Some(name) => CategoryQuery::Known(name),
        None => CategoryQuery::Unknown(t.to_owned()),
    }
}

} // verus!
