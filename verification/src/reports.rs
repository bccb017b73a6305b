//! The text of every reply. Amounts of money arrive already written out
//! (`*_text` fields); everything else is laid out here.

use vstd::prelude::*;

use crate::calendar::{
    date_display, month_name, shown_date, month_name_short, previous_month, spec_month_name,
    spec_month_name_short, spec_previous_month,
};
use crate::category::{
    category_at, category_emoji, category_label, spec_category_emoji, spec_category_label,
    ReceiptCategory, CATEGORY_COUNT,
};
use crate::arguments::MonthQuery;
use crate::dialogue::{is_cancel, spec_step, Action, Command, Incoming, State};
use crate::text::{
    ascii_lower, int_text, lowercase_ascii, push_char, push_i64, push_repeat, push_str, push_u64,
    repeat_char,
};

verus! {

/// The separator line above totals.
pub open spec fn rule_line() -> Seq<char> {
    "\n\u{2501}\u{2501}\u{2501}\u{2501}\u{2501}\u{2501}\u{2501}\u{2501}\u{2501}\u{2501}\u{2501}\u{2501}\u{2501}\u{2501}\u{2501}\u{2501}\u{2501}\u{2501}\n"@
}

fn push_rule_line(s: &mut String)
    ensures
        final(s)@ == old(s)@ + rule_line(),
{
    push_str(s, "\n\u{2501}\u{2501}\u{2501}\u{2501}\u{2501}\u{2501}\u{2501}\u{2501}\u{2501}\u{2501}\u{2501}\u{2501}\u{2501}\u{2501}\u{2501}\u{2501}\u{2501}\u{2501}\n");
}

/// `"<Month> <year>"`.
pub open spec fn month_year(year: int, month: int) -> Seq<char> {
    spec_month_name(month) + seq![' '] + int_text(year)
}

fn push_month_year(s: &mut String, year: i32, month: u32)
    ensures
        final(s)@ == old(s)@ + month_year(year as int, month as int),
{
    let ghost start = s@;
    push_str(s, month_name(month));
    push_char(s, ' ');
    push_i64(s, year as i64);
    assert(s@ =~= start + month_year(year as int, month as int));
}

/// The date part of a stored timestamp, as replies show it.
fn push_date(s: &mut String, date: &str)
    ensures
        final(s)@ == old(s)@ + shown_date(date@),
{
    let d = date_display(date);
    push_str(s, d);
}

// ---------------------------------------------------------------------------
// Month expenses (`/check`, `/month`).
// ---------------------------------------------------------------------------

/// The spending of one category in a month.
pub struct CategoryTotal {
    /// The stored category name.
    pub category: String,
    pub total_text: String,
    pub item_count: i64,
}

/// The share of junk food in the spending.
pub struct JunkShare {
    pub amount_text: String,
    pub percent_text: String,
}

/// The totals of a month.
pub struct MonthTotals {
    /// The sum of the item prices.
    pub items_total_text: String,
    pub receipt_count: i64,
    /// Present where the items add up to more than zero.
    pub junk: Option<JunkShare>,
}

/// A line of the month report: the category's emoji, label, total and item count.
pub open spec fn category_line(c: CategoryTotal) -> Seq<char> {
    spec_category_emoji(c.category@) + seq![' '] + spec_category_label(c.category@) + ": "@
        + c.total_text@ + " PLN ("@ + int_text(c.item_count as int) + " items)\n"@
}

/// The lines of the month report, one per category, in the given order.
pub open spec fn category_lines(cs: Seq<CategoryTotal>) -> Seq<char>
    decreases cs.len(),
{
    if cs.len() == 0 {
        Seq::empty()
    } else {
        category_lines(cs.drop_last()) + category_line(cs.last())
    }
}

/// The reply to `/check` and `/month`.
pub open spec fn spec_expenses_message(
    year: int,
    month: int,
    categories: Seq<CategoryTotal>,
    totals: MonthTotals,
) -> Seq<char> {
    if categories.len() == 0 {
        "\u{1F4CA} No expenses for "@ + month_year(year, month) + " yet."@
    } else {
        "\u{1F4CA} Expenses \u{2014} "@ + month_year(year, month) + "\n\n"@ + category_lines(
            categories,
        ) + rule_line() + "\u{1F4B0} Total: "@ + totals.items_total_text@ + " PLN ("@ + int_text(
            totals.receipt_count as int,
        ) + " receipts)\n"@ + match totals.junk {
            Some(j) => "\u{1F355} Junk food: "@ + j.amount_text@ + " PLN ("@ + j.percent_text@
                + "%)"@,
            None => Seq::empty(),
        }
    }
}

fn push_category_line(s: &mut String, c: &CategoryTotal)
    ensures
        final(s)@ == old(s)@ + category_line(*c),
{
    let ghost start = s@;
    push_str(s, category_emoji(c.category.as_str()));
    push_char(s, ' ');
    push_str(s, category_label(c.category.as_str()));
    push_str(s, ": ");
    push_str(s, c.total_text.as_str());
    push_str(s, " PLN (");
    push_i64(s, c.item_count);
    push_str(s, " items)\n");
    assert(s@ =~= start + category_line(*c));
}

fn push_category_lines(s: &mut String, cs: &Vec<CategoryTotal>, limit: usize)
    requires
        limit <= cs@.len(),
    ensures
        final(s)@ == old(s)@ + category_lines(cs@.subrange(0, limit as int)),
{
    let ghost start = s@;
    let mut i: usize = 0;
    while i < limit
        invariant
            limit <= cs@.len(),
            i <= limit,
            s@ == start + category_lines(cs@.subrange(0, i as int)),
        decreases limit - i,
    {
        push_category_line(s, &cs[i]);
        proof {
            let pre = cs@.subrange(0, i as int);
            let post = cs@.subrange(0, i + 1);
            assert(post.drop_last() =~= pre);
            assert(post.last() == cs@[i as int]);
            assert(s@ =~= start + category_lines(post));
        }
        i = i + 1;
    }
}

/// The reply to `/check` and `/month` for a month.
pub fn expenses_message(year: i32, month: u32, categories: &Vec<CategoryTotal>, totals: &MonthTotals) -> (r: String)
    ensures
        r@ == spec_expenses_message(year as int, month as int, categories@, *totals),
{
    let mut s = String::new();
    if categories.len() == 0 {
        push_str(&mut s, "\u{1F4CA} No expenses for ");
        push_month_year(&mut s, year, month);
        push_str(&mut s, " yet.");
        assert(s@ =~= spec_expenses_message(year as int, month as int, categories@, *totals));
        return s;
    }
    push_str(&mut s, "\u{1F4CA} Expenses \u{2014} ");
    push_month_year(&mut s, year, month);
    push_str(&mut s, "\n\n");
    let ghost head = s@;
    push_category_lines(&mut s, categories, categories.len());
    assert(categories@.subrange(0, categories@.len() as int) =~= categories@);
    push_rule_line(&mut s);
    push_str(&mut s, "\u{1F4B0} Total: ");
    push_str(&mut s, totals.items_total_text.as_str());
    push_str(&mut s, " PLN (");
    push_i64(&mut s, totals.receipt_count);
    push_str(&mut s, " receipts)\n");
    let ghost before_junk = s@;
    match &totals.junk {
        Some(j) => {
            push_str(&mut s, "\u{1F355} Junk food: ");
            push_str(&mut s, j.amount_text.as_str());
            push_str(&mut s, " PLN (");
            push_str(&mut s, j.percent_text.as_str());
            push_str(&mut s, "%)");
        },
        None => {},
    }
    assert(s@ =~= spec_expenses_message(year as int, month as int, categories@, *totals));
    s
}

// ---------------------------------------------------------------------------
// Monthly statistics (`/stats`).
// ---------------------------------------------------------------------------

/// What was spent in a month, and on how many receipts.
pub struct PeriodTotal {
    pub total_text: String,
    pub receipt_count: i64,
}

/// A change in percent between two amounts.
pub struct Change {
    /// The change is zero or more.
    pub rising: bool,
    /// The change as `{:+.1}` writes it.
    pub percent_text: String,
}

/// The chart emoji for a rise or a fall.
pub open spec fn arrow(rising: bool) -> Seq<char> {
    if rising { "\u{1F4C8}"@ } else { "\u{1F4C9}"@ }
}

fn push_arrow(s: &mut String, rising: bool)
    ensures
        final(s)@ == old(s)@ + arrow(rising),
{
    if rising {
        push_str(s, "\u{1F4C8}");
    } else {
        push_str(s, "\u{1F4C9}");
    }
}

/// A month's line of the statistics: its name, year, total and receipt count.
pub open spec fn period_line(year: int, month: int, p: PeriodTotal) -> Seq<char> {
    "\u{1F4C5} "@ + month_year(year, month) + ": "@ + p.total_text@ + " PLN ("@ + int_text(
        p.receipt_count as int,
    ) + " receipts)\n"@
}

fn push_period_line(s: &mut String, year: i32, month: u32, p: &PeriodTotal)
    ensures
        final(s)@ == old(s)@ + period_line(year as int, month as int, *p),
{
    let ghost start = s@;
    push_str(s, "\u{1F4C5} ");
    push_month_year(s, year, month);
    push_str(s, ": ");
    push_str(s, p.total_text.as_str());
    push_str(s, " PLN (");
    push_i64(s, p.receipt_count);
    push_str(s, " receipts)\n");
    assert(s@ =~= start + period_line(year as int, month as int, *p));
}

/// A line of the top-categories list: its number (from 1), emoji, label and
/// total.
pub open spec fn top_category_line(i: int, c: CategoryTotal) -> Seq<char> {
    "  "@ + int_text(i + 1) + ". "@ + spec_category_emoji(c.category@) + seq![' ']
        + spec_category_label(c.category@) + " \u{2014} "@ + c.total_text@ + " PLN\n"@
}

/// The numbered lines of the top categories.
pub open spec fn top_category_lines(cs: Seq<CategoryTotal>) -> Seq<char>
    decreases cs.len(),
{
    if cs.len() == 0 {
        Seq::empty()
    } else {
        top_category_lines(cs.drop_last()) + top_category_line(cs.len() - 1, cs.last())
    }
}

/// The line with the change from the previous month, where there is one.
pub open spec fn change_part(change: Option<Change>) -> Seq<char> {
    match change {
        Some(c) => arrow(c.rising) + " Change: "@ + c.percent_text@ + "%\n"@,
        None => Seq::empty(),
    }
}

/// The line with the average receipt, where there are receipts.
pub open spec fn average_part(receipt_count: int, average_text: Seq<char>) -> Seq<char> {
    if receipt_count > 0 {
        "\u{1F4B0} Avg receipt: "@ + average_text + " PLN\n"@
    } else {
        Seq::empty()
    }
}

/// The line with the junk-food share, where there is one.
pub open spec fn junk_part(junk: Option<JunkShare>) -> Seq<char> {
    match junk {
        Some(j) => "\u{1F355} Junk food: "@ + j.amount_text@ + " PLN ("@ + j.percent_text@ + "%)\n"@,
        None => Seq::empty(),
    }
}

/// The top-three list of the statistics, where there are categories.
pub open spec fn top_categories_part(categories: Seq<CategoryTotal>) -> Seq<char> {
    if categories.len() > 0 {
        "\n\u{1F3C6} Top categories:\n"@ + top_category_lines(
            categories.subrange(0, if categories.len() < 3 { categories.len() as int } else { 3 }),
        )
    } else {
        Seq::empty()
    }
}

/// The reply to `/stats`: the current and the previous month, the change
/// between them, the average receipt, the junk-food share and the top
/// three categories of the current month.
pub open spec fn spec_stats_message(
    year: int,
    month: int,
    current: PeriodTotal,
    previous: PeriodTotal,
    change: Option<Change>,
    average_text: Seq<char>,
    junk: Option<JunkShare>,
    categories: Seq<CategoryTotal>,
) -> Seq<char> {
    let p = spec_previous_month(year, month);
    "\u{1F4C8} Statistics\n\n"@ + period_line(year, month, current) + period_line(p.0, p.1, previous)
        + change_part(change) + seq!['\n'] + average_part(current.receipt_count as int, average_text)
        + junk_part(junk) + top_categories_part(categories)
}

fn push_change_part(s: &mut String, change: &Option<Change>)
    ensures
        final(s)@ == old(s)@ + change_part(*change),
{
    let ghost start = s@;
    match change {
        Some(c) => {
            push_arrow(s, c.rising);
            push_str(s, " Change: ");
            push_str(s, c.percent_text.as_str());
            push_str(s, "%\n");
        },
        None => {},
    }
    assert(s@ =~= start + change_part(*change));
}

fn push_average_part(s: &mut String, receipt_count: i64, average_text: &str)
    ensures
        final(s)@ == old(s)@ + average_part(receipt_count as int, average_text@),
{
    let ghost start = s@;
    if receipt_count > 0 {
        push_str(s, "\u{1F4B0} Avg receipt: ");
        push_str(s, average_text);
        push_str(s, " PLN\n");
    }
    assert(s@ =~= start + average_part(receipt_count as int, average_text@));
}

fn push_junk_part(s: &mut String, junk: &Option<JunkShare>)
    ensures
        final(s)@ == old(s)@ + junk_part(*junk),
{
    let ghost start = s@;
    match junk {
        Some(j) => {
            push_str(s, "\u{1F355} Junk food: ");
            push_str(s, j.amount_text.as_str());
            push_str(s, " PLN (");
            push_str(s, j.percent_text.as_str());
            push_str(s, "%)\n");
        },
        None => {},
    }
    assert(s@ =~= start + junk_part(*junk));
}

fn push_top_category_line(s: &mut String, i: usize, c: &CategoryTotal)
    requires
        i < u64::MAX,
    ensures
        final(s)@ == old(s)@ + top_category_line(i as int, *c),
{
    let ghost start = s@;
    push_str(s, "  ");
    push_u64(s, (i as u64) + 1);
    push_str(s, ". ");
    push_str(s, category_emoji(c.category.as_str()));
    push_char(s, ' ');
    push_str(s, category_label(c.category.as_str()));
    push_str(s, " \u{2014} ");
    push_str(s, c.total_text.as_str());
    push_str(s, " PLN\n");
    assert(s@ =~= start + top_category_line(i as int, *c));
}

fn push_top_categories_part(s: &mut String, categories: &Vec<CategoryTotal>)
    ensures
        final(s)@ == old(s)@ + top_categories_part(categories@),
{
    let ghost start = s@;
    if categories.len() > 0 {
        push_str(s, "\n\u{1F3C6} Top categories:\n");
        let ghost head = s@;
        let limit: usize = if categories.len() < 3 { categories.len() } else { 3 };
        let mut i: usize = 0;
        while i < limit
            invariant
                limit <= categories@.len(),
                limit <= 3,
                i <= limit,
                s@ == head + top_category_lines(categories@.subrange(0, i as int)),
            decreases limit - i,
        {
            push_top_category_line(s, i, &categories[i]);
            proof {
                let pre = categories@.subrange(0, i as int);
                let post = categories@.subrange(0, i + 1);
                assert(post.drop_last() =~= pre);
                assert(s@ =~= head + top_category_lines(post));
            }
            i = i + 1;
        }
    }
    assert(s@ =~= start + top_categories_part(categories@));
}

/// The reply to `/stats` for the month (year, month).
pub fn stats_message(
    year: i32,
    month: u32,
    current: &PeriodTotal,
    previous: &PeriodTotal,
    change: &Option<Change>,
    average_text: &str,
    junk: &Option<JunkShare>,
    categories: &Vec<CategoryTotal>,
) -> (r: String)
    requires
        month >= 1,
        month == 1 ==> year > i32::MIN,
    ensures
        r@ == spec_stats_message(
            year as int,
            month as int,
            *current,
            *previous,
            *change,
            average_text@,
            *junk,
            categories@,
        ),
{
    let (prev_year, prev_month) = previous_month(year, month);
    let mut s = String::new();
    push_str(&mut s, "\u{1F4C8} Statistics\n\n");
    push_period_line(&mut s, year, month, current);
    push_period_line(&mut s, prev_year, prev_month, previous);
    push_change_part(&mut s, change);
    push_char(&mut s, '\n');
    push_average_part(&mut s, current.receipt_count, average_text);
    push_junk_part(&mut s, junk);
    push_top_categories_part(&mut s, categories);
    assert(s@ =~= spec_stats_message(
        year as int,
        month as int,
        *current,
        *previous,
        *change,
        average_text@,
        *junk,
        categories@,
    ));
    s
}

// ---------------------------------------------------------------------------
// Receipts (`/history`, `/delete`, `/top`).
// ---------------------------------------------------------------------------

/// A stored receipt as replies show it.
pub struct ReceiptSummary {
    pub shop_name: String,
    pub total_text: String,
    /// The stored timestamp.
    pub date: String,
}

/// The line of the receipt at position `i` (from 0) of the history.
pub open spec fn history_line(i: int, r: ReceiptSummary) -> Seq<char> {
    int_text(i + 1) + ". "@ + r.shop_name@ + " \u{2014} "@ + r.total_text@ + " PLN\n   \u{1F4C5} "@
        + shown_date(r.date@) + "\n\n"@
}

/// The lines of the history, numbered from 1.
pub open spec fn history_lines(rs: Seq<ReceiptSummary>) -> Seq<char>
    decreases rs.len(),
{
    if rs.len() == 0 {
        Seq::empty()
    } else {
        history_lines(rs.drop_last()) + history_line(rs.len() - 1, rs.last())
    }
}

/// The reply to `/history`: the receipts numbered from 1.
pub open spec fn spec_history_message(receipts: Seq<ReceiptSummary>) -> Seq<char> {
    if receipts.len() == 0 {
        "\u{1F4CB} No receipts found."@
    } else {
        "\u{1F4CB} Recent receipts:\n\n"@ + history_lines(receipts)
    }
}

/// The reply to `/history`.
pub fn history_message(receipts: &Vec<ReceiptSummary>) -> (r: String)
    ensures
        r@ == spec_history_message(receipts@),
{
    let mut s = String::new();
    if receipts.len() == 0 {
        push_str(&mut s, "\u{1F4CB} No receipts found.");
        return s;
    }
    push_str(&mut s, "\u{1F4CB} Recent receipts:\n\n");
    let ghost head = s@;
    let n = receipts.len();
    let mut i: usize = 0;
    while i < n
        invariant
            n == receipts@.len(),
            i <= n,
            s@ == head + history_lines(receipts@.subrange(0, i as int)),
        decreases n - i,
    {
        let r = &receipts[i];
        let ghost line_start = s@;
        push_u64(&mut s, (i + 1) as u64);
        push_str(&mut s, ". ");
        push_str(&mut s, r.shop_name.as_str());
        push_str(&mut s, " \u{2014} ");
        push_str(&mut s, r.total_text.as_str());
        push_str(&mut s, " PLN\n   \u{1F4C5} ");
        push_date(&mut s, r.date.as_str());
        push_str(&mut s, "\n\n");
        proof {
            assert(s@ =~= line_start + history_line(i as int, receipts@[i as int]));
            let pre = receipts@.subrange(0, i as int);
            let post = receipts@.subrange(0, i + 1);
            assert(post.drop_last() =~= pre);
            assert(s@ =~= head + history_lines(post));
        }
        i = i + 1;
    }
    assert(receipts@.subrange(0, n as int) =~= receipts@);
    s
}

/// The reply to `/delete`: the receipt that was deleted, or that there was
/// none.
pub open spec fn spec_deleted_message(deleted: Option<ReceiptSummary>) -> Seq<char> {
    match deleted {
        Some(r) => "\u{1F5D1}\u{FE0F} Deleted last receipt:\n"@ + r.shop_name@ + " \u{2014} "@
            + r.total_text@ + " PLN ("@ + shown_date(r.date@) + ")"@,
        None => "Nothing to delete."@,
    }
}

/// The reply to `/delete`.
pub fn deleted_message(deleted: &Option<ReceiptSummary>) -> (r: String)
    ensures
        r@ == spec_deleted_message(*deleted),
{
    let mut s = String::new();
    match deleted {
        Some(r) => {
            push_str(&mut s, "\u{1F5D1}\u{FE0F} Deleted last receipt:\n");
            push_str(&mut s, r.shop_name.as_str());
            push_str(&mut s, " \u{2014} ");
            push_str(&mut s, r.total_text.as_str());
            push_str(&mut s, " PLN (");
            push_date(&mut s, r.date.as_str());
            push_str(&mut s, ")");
        },
        None => {
            push_str(&mut s, "Nothing to delete.");
        },
    }
    assert(s@ =~= spec_deleted_message(*deleted));
    s
}

// ---------------------------------------------------------------------------
// One category (`/category`).
// ---------------------------------------------------------------------------

/// The line of the category list for category `c`: its emoji and its name
/// in lowercase.
pub open spec fn category_list_line(c: ReceiptCategory) -> Seq<char> {
    "  "@ + c.spec_emoji() + seq![' '] + ascii_lower(c.spec_name()) + seq!['\n']
}

/// The list lines of the first `n` categories, in canonical order.
pub open spec fn category_list(n: nat) -> Seq<char>
    decreases n,
{
    if n == 0 {
        Seq::empty()
    } else {
        category_list((n - 1) as nat) + category_list_line(category_at(n - 1))
    }
}

fn push_category_list(s: &mut String)
    ensures
        final(s)@ == old(s)@ + category_list(CATEGORY_COUNT as nat),
{
    let ghost start = s@;
    let mut i: usize = 0;
    while i < CATEGORY_COUNT
        invariant
            i <= CATEGORY_COUNT,
            s@ == start + category_list(i as nat),
        decreases CATEGORY_COUNT - i,
    {
        let c = ReceiptCategory::at(i);
        let ghost line_start = s@;
        push_str(s, "  ");
        push_str(s, c.emoji());
        push_char(s, ' ');
        let lower = lowercase_ascii(c.name());
        push_str(s, lower.as_str());
        push_char(s, '\n');
        assert(s@ =~= line_start + category_list_line(category_at(i as int)));
        assert(s@ =~= start + category_list((i + 1) as nat));
        i = i + 1;
    }
}

/// The reply to `/category` without an argument.
pub open spec fn spec_category_usage_message() -> Seq<char> {
    "Usage: /category <name>\n\nAvailable categories:\n"@ + category_list(CATEGORY_COUNT as nat)
}

/// The reply to `/category` without an argument.
pub fn category_usage_message() -> (r: String)
    ensures
        r@ == spec_category_usage_message(),
{
    let mut s = String::new();
    push_str(&mut s, "Usage: /category <name>\n\nAvailable categories:\n");
    push_category_list(&mut s);
    s
}

/// The reply to `/category` with a name that is no category: the name
/// quoted back, then the list of categories.
pub open spec fn spec_unknown_category_message(arg: Seq<char>) -> Seq<char> {
    "Unknown category: \""@ + arg + "\"\n\nAvailable:\n"@ + category_list(CATEGORY_COUNT as nat)
}

/// The reply to `/category` with a name that is no category.
pub fn unknown_category_message(arg: &str) -> (r: String)
    ensures
        r@ == spec_unknown_category_message(arg@),
{
    let mut s = String::new();
    push_str(&mut s, "Unknown category: \"");
    push_str(&mut s, arg);
    push_str(&mut s, "\"\n\nAvailable:\n");
    push_category_list(&mut s);
    assert(s@ =~= spec_unknown_category_message(arg@));
    s
}

/// An item bought in the category.
pub struct CategoryItem {
    pub item_name: String,
    pub price_text: String,
    pub shop_name: String,
    /// The stored timestamp of the receipt.
    pub date: String,
    pub is_junk_food: bool,
}

/// The number of junk-food items.
pub open spec fn junk_count(items: Seq<CategoryItem>) -> nat
    decreases items.len(),
{
    if items.len() == 0 {
        0
    } else {
        junk_count(items.drop_last()) + if items.last().is_junk_food { 1nat } else { 0nat }
    }
}

/// The line of an item, marked where it is junk food.
pub open spec fn category_item_line(item: CategoryItem) -> Seq<char> {
    "\u{2022} "@ + item.item_name@ + " \u{2014} "@ + item.price_text@ + " PLN"@ + (if item.is_junk_food {
        " \u{1F355}"@
    } else {
        Seq::empty()
    }) + "\n  "@ + item.shop_name@ + " | "@ + shown_date(item.date@) + seq!['\n']
}

/// The lines of the items, in the given order.
pub open spec fn category_item_lines(items: Seq<CategoryItem>) -> Seq<char>
    decreases items.len(),
{
    if items.len() == 0 {
        Seq::empty()
    } else {
        category_item_lines(items.drop_last()) + category_item_line(items.last())
    }
}

/// The reply to `/category <name>` for a month: every item of the
/// category, the total and the number of items, and how many were junk
/// food where any was.
pub open spec fn spec_category_message(
    category: Seq<char>,
    year: int,
    month: int,
    items: Seq<CategoryItem>,
    total_text: Seq<char>,
) -> Seq<char> {
    if items.len() == 0 {
        spec_category_emoji(category) + " No "@ + spec_category_label(category) + " expenses for "@
            + month_year(year, month) + seq!['.']
    } else {
        spec_category_emoji(category) + seq![' '] + spec_category_label(category) + " \u{2014} "@
            + month_year(year, month) + "\n\n"@ + category_item_lines(items) + rule_line()
            + "\u{1F4B0} Total: "@ + total_text + " PLN ("@ + int_text(items.len() as int)
            + " items)"@ + if junk_count(items) > 0 {
            "\n\u{1F355} Junk food items: "@ + int_text(junk_count(items) as int)
        } else {
            Seq::empty()
        }
    }
}

fn push_category_item_line(s: &mut String, item: &CategoryItem)
    ensures
        final(s)@ == old(s)@ + category_item_line(*item),
{
    let ghost start = s@;
    push_str(s, "\u{2022} ");
    push_str(s, item.item_name.as_str());
    push_str(s, " \u{2014} ");
    push_str(s, item.price_text.as_str());
    push_str(s, " PLN");
    if item.is_junk_food {
        push_str(s, " \u{1F355}");
    }
    push_str(s, "\n  ");
    push_str(s, item.shop_name.as_str());
    push_str(s, " | ");
    push_date(s, item.date.as_str());
    push_char(s, '\n');
    assert(s@ =~= start + category_item_line(*item));
}

/// Writes the item lines and counts the junk-food items.
fn push_category_items(s: &mut String, items: &Vec<CategoryItem>) -> (junk: usize)
    ensures
        final(s)@ == old(s)@ + category_item_lines(items@),
        junk as nat == junk_count(items@),
{
    let ghost start = s@;
    let n = items.len();
    let mut junk: usize = 0;
    let mut i: usize = 0;
    while i < n
        invariant
            n == items@.len(),
            i <= n,
            junk <= i,
            junk as nat == junk_count(items@.subrange(0, i as int)),
            s@ == start + category_item_lines(items@.subrange(0, i as int)),
        decreases n - i,
    {
        push_category_item_line(s, &items[i]);
        if items[i].is_junk_food {
            junk = junk + 1;
        }
        proof {
            let pre = items@.subrange(0, i as int);
            let post = items@.subrange(0, i + 1);
            assert(post.drop_last() =~= pre);
            assert(s@ =~= start + category_item_lines(post));
        }
        i = i + 1;
    }
    assert(items@.subrange(0, n as int) =~= items@);
    junk
}

/// The reply to `/category <name>`; `category` is the stored name.
pub fn category_message(
    category: &str,
    year: i32,
    month: u32,
    items: &Vec<CategoryItem>,
    total_text: &str,
) -> (r: String)
    ensures
        r@ == spec_category_message(category@, year as int, month as int, items@, total_text@),
{
    let mut s = String::new();
    if items.len() == 0 {
        push_str(&mut s, category_emoji(category));
        push_str(&mut s, " No ");
        push_str(&mut s, category_label(category));
        push_str(&mut s, " expenses for ");
        push_month_year(&mut s, year, month);
        push_char(&mut s, '.');
        assert(s@ =~= spec_category_message(category@, year as int, month as int, items@, total_text@));
        return s;
    }
    push_str(&mut s, category_emoji(category));
    push_char(&mut s, ' ');
    push_str(&mut s, category_label(category));
    push_str(&mut s, " \u{2014} ");
    push_month_year(&mut s, year, month);
    push_str(&mut s, "\n\n");
    let junk = push_category_items(&mut s, items);
    push_rule_line(&mut s);
    push_str(&mut s, "\u{1F4B0} Total: ");
    push_str(&mut s, total_text);
    push_str(&mut s, " PLN (");
    push_u64(&mut s, items.len() as u64);
    push_str(&mut s, " items)");
    if junk > 0 {
        push_str(&mut s, "\n\u{1F355} Junk food items: ");
        push_u64(&mut s, junk as u64);
    }
    assert(s@ =~= spec_category_message(category@, year as int, month as int, items@, total_text@));
    s
}

// ---------------------------------------------------------------------------
// Spending trend (`/trend`).
// ---------------------------------------------------------------------------

/// The width of a trend bar in characters.
pub const BAR_WIDTH: usize = 12;

/// One month of the trend.
pub struct TrendEntry {
    pub year: i32,
    pub month: i32,
    /// The filled part of the bar: the month's total against the largest
    /// total, in twelfths.
    pub bar_len: usize,
    /// The total as `{:>8.0}` writes it.
    pub total_text: String,
    pub receipt_count: i64,
}

/// The line of a month of the trend: its name, year, bar, total and receipts.
pub open spec fn trend_line(e: TrendEntry) -> Seq<char> {
    spec_month_name_short(e.month as int) + seq![' '] + int_text(e.year as int) + seq![' ']
        + repeat_char('\u{2588}', e.bar_len as nat) + repeat_char(
        '\u{2591}',
        (BAR_WIDTH - e.bar_len) as nat,
    ) + seq![' '] + e.total_text@ + " PLN ("@ + int_text(e.receipt_count as int) + ")\n"@
}

/// The lines of the trend, in the given order.
pub open spec fn trend_lines(es: Seq<TrendEntry>) -> Seq<char>
    decreases es.len(),
{
    if es.len() == 0 {
        Seq::empty()
    } else {
        trend_lines(es.drop_last()) + trend_line(es.last())
    }
}

/// The receipts of all months together.
pub open spec fn receipt_total(es: Seq<TrendEntry>) -> int
    decreases es.len(),
{
    if es.len() == 0 {
        0
    } else {
        receipt_total(es.drop_last()) + es.last().receipt_count
    }
}

/// Every bar fits the width, and the running count of receipts stays in
/// `i64`.
pub open spec fn trend_fits(es: Seq<TrendEntry>) -> bool {
    &&& forall|i: int| 0 <= i < es.len() ==> #[trigger] es[i].bar_len <= BAR_WIDTH
    &&& forall|k: int|
        0 <= k <= es.len() ==> i64::MIN <= #[trigger] receipt_total(es.subrange(0, k)) <= i64::MAX
}

/// The reply to `/trend`: a bar per month, the average per month and the
/// number of receipts, and the change from the first month to the last
/// where there are two months or more.
pub open spec fn spec_trend_message(
    entries: Seq<TrendEntry>,
    average_text: Seq<char>,
    overall: Option<Change>,
) -> Seq<char> {
    if entries.len() == 0 {
        "\u{1F4CA} No spending data yet."@
    } else {
        "\u{1F4CA} Spending trend\n\n"@ + trend_lines(entries) + "\n\u{1F4B0} Avg: "@ + average_text
            + " PLN/month ("@ + int_text(receipt_total(entries)) + " receipts total)"@ + match overall {
            Some(c) => if entries.len() >= 2 {
                seq!['\n'] + arrow(c.rising) + " Overall: "@ + c.percent_text@ + seq!['%']
            } else {
                Seq::empty()
            },
            None => Seq::empty(),
        }
    }
}

fn push_trend_line(s: &mut String, e: &TrendEntry)
    requires
        e.bar_len <= BAR_WIDTH,
    ensures
        final(s)@ == old(s)@ + trend_line(*e),
{
    let ghost start = s@;
    push_str(s, month_name_short(e.month));
    push_char(s, ' ');
    push_i64(s, e.year as i64);
    push_char(s, ' ');
    push_repeat(s, '\u{2588}', e.bar_len);
    push_repeat(s, '\u{2591}', BAR_WIDTH - e.bar_len);
    push_char(s, ' ');
    push_str(s, e.total_text.as_str());
    push_str(s, " PLN (");
    push_i64(s, e.receipt_count);
    push_str(s, ")\n");
    assert(s@ =~= start + trend_line(*e));
}

/// Writes the trend lines and adds up the receipts.
fn push_trend_lines(s: &mut String, entries: &Vec<TrendEntry>) -> (total: i64)
    requires
        trend_fits(entries@),
    ensures
        final(s)@ == old(s)@ + trend_lines(entries@),
        total as int == receipt_total(entries@),
{
    let ghost start = s@;
    let n = entries.len();
    let mut total: i64 = 0;
    let mut i: usize = 0;
    assert(entries@.subrange(0, 0) =~= Seq::<TrendEntry>::empty());
    while i < n
        invariant
            n == entries@.len(),
            i <= n,
            trend_fits(entries@),
            total as int == receipt_total(entries@.subrange(0, i as int)),
            s@ == start + trend_lines(entries@.subrange(0, i as int)),
        decreases n - i,
    {
        let e = &entries[i];
        assert(entries@[i as int].bar_len <= BAR_WIDTH);
        push_trend_line(s, e);
        let ghost pre = entries@.subrange(0, i as int);
        let ghost post = entries@.subrange(0, i + 1);
        assert(post.drop_last() =~= pre);
        assert(post.last() == entries@[i as int]);
        assert(i64::MIN <= receipt_total(post) <= i64::MAX);
        total = total + e.receipt_count;
        assert(s@ =~= start + trend_lines(post));
        i = i + 1;
    }
    assert(entries@.subrange(0, n as int) =~= entries@);
    total
}

/// The reply to `/trend`.
pub fn trend_message(entries: &Vec<TrendEntry>, average_text: &str, overall: &Option<Change>) -> (r: String)
    requires
        trend_fits(entries@),
    ensures
        r@ == spec_trend_message(entries@, average_text@, *overall),
{
    let mut s = String::new();
    if entries.len() == 0 {
        push_str(&mut s, "\u{1F4CA} No spending data yet.");
        return s;
    }
    push_str(&mut s, "\u{1F4CA} Spending trend\n\n");
    let total = push_trend_lines(&mut s, entries);
    push_str(&mut s, "\n\u{1F4B0} Avg: ");
    push_str(&mut s, average_text);
    push_str(&mut s, " PLN/month (");
    push_i64(&mut s, total);
    push_str(&mut s, " receipts total)");
    match overall {
        Some(c) => {
            if entries.len() >= 2 {
                push_char(&mut s, '\n');
                push_arrow(&mut s, c.rising);
                push_str(&mut s, " Overall: ");
                push_str(&mut s, c.percent_text.as_str());
                push_char(&mut s, '%');
            }
        },
        None => {},
    }
    assert(s@ =~= spec_trend_message(entries@, average_text@, *overall));
    s
}

// ---------------------------------------------------------------------------
// Spending insights (`/top`).
// ---------------------------------------------------------------------------

/// What was spent at one shop.
pub struct ShopTotal {
    pub shop_name: String,
    pub total_text: String,
    pub visit_count: i64,
}

/// The daily average of the current month and what it comes to by the end
/// of the month.
pub struct Projection {
    pub daily_text: String,
    pub projected_text: String,
}

/// The medal for the shop at position `i` (from 0).
pub open spec fn medal(i: int) -> Seq<char> {
    if i == 0 {
        "\u{1F947}"@
    } else if i == 1 {
        "\u{1F948}"@
    } else if i == 2 {
        "\u{1F949}"@
    } else {
        "  "@
    }
}

/// The line of the shop at position `i` (from 0), with its medal.
pub open spec fn shop_line(i: int, shop: ShopTotal) -> Seq<char> {
    medal(i) + seq![' '] + shop.shop_name@ + " \u{2014} "@ + shop.total_text@ + " PLN ("@ + int_text(
        shop.visit_count as int,
    ) + " visits)\n"@
}

/// The lines of the shops, in the given order.
pub open spec fn shop_lines(shops: Seq<ShopTotal>) -> Seq<char>
    decreases shops.len(),
{
    if shops.len() == 0 {
        Seq::empty()
    } else {
        shop_lines(shops.drop_last()) + shop_line(shops.len() - 1, shops.last())
    }
}

/// The reply to `/top`: the shops with medals for the first three, the
/// biggest receipt, and the daily average with its projection.
pub open spec fn spec_top_message(
    shops: Seq<ShopTotal>,
    biggest: Option<ReceiptSummary>,
    projection: Option<Projection>,
) -> Seq<char> {
    if shops.len() == 0 {
        "\u{1F3C6} No data yet."@
    } else {
        "\u{1F3C6} Spending insights\n\n\u{1F3EA} Top shops:\n"@ + shop_lines(shops) + match biggest {
            Some(b) => "\n\u{1F4B8} Biggest receipt:\n  "@ + b.shop_name@ + " \u{2014} "@
                + b.total_text@ + " PLN ("@ + shown_date(b.date@) + seq![')'],
            None => Seq::empty(),
        } + match projection {
            Some(p) => "\n\n\u{1F4C5} Daily avg this month: "@ + p.daily_text@ + " PLN"@
                + "\n\u{1F52E} Projected: "@ + p.projected_text@ + " PLN by month end"@,
            None => Seq::empty(),
        }
    }
}

fn push_medal(s: &mut String, i: usize)
    ensures
        final(s)@ == old(s)@ + medal(i as int),
{
    match i {
        0 => push_str(s, "\u{1F947}"),
        1 => push_str(s, "\u{1F948}"),
        2 => push_str(s, "\u{1F949}"),
        _ => push_str(s, "  "),
    }
}

fn push_shop_lines(s: &mut String, shops: &Vec<ShopTotal>)
    ensures
        final(s)@ == old(s)@ + shop_lines(shops@),
{
    let ghost start = s@;
    let n = shops.len();
    let mut i: usize = 0;
    while i < n
        invariant
            n == shops@.len(),
            i <= n,
            s@ == start + shop_lines(shops@.subrange(0, i as int)),
        decreases n - i,
    {
        let shop = &shops[i];
        let ghost line_start = s@;
        push_medal(s, i);
        push_char(s, ' ');
        push_str(s, shop.shop_name.as_str());
        push_str(s, " \u{2014} ");
        push_str(s, shop.total_text.as_str());
        push_str(s, " PLN (");
        push_i64(s, shop.visit_count);
        push_str(s, " visits)\n");
        proof {
            assert(s@ =~= line_start + shop_line(i as int, shops@[i as int]));
            let pre = shops@.subrange(0, i as int);
            let post = shops@.subrange(0, i + 1);
            assert(post.drop_last() =~= pre);
            assert(s@ =~= start + shop_lines(post));
        }
        i = i + 1;
    }
    assert(shops@.subrange(0, n as int) =~= shops@);
}

/// The reply to `/top`.
pub fn top_message(
    shops: &Vec<ShopTotal>,
    biggest: &Option<ReceiptSummary>,
    projection: &Option<Projection>,
) -> (r: String)
    ensures
        r@ == spec_top_message(shops@, *biggest, *projection),
{
    let mut s = String::new();
    if shops.len() == 0 {
        push_str(&mut s, "\u{1F3C6} No data yet.");
        return s;
    }
    push_str(&mut s, "\u{1F3C6} Spending insights\n\n\u{1F3EA} Top shops:\n");
    push_shop_lines(&mut s, shops);
    match biggest {
        Some(b) => {
            push_str(&mut s, "\n\u{1F4B8} Biggest receipt:\n  ");
            push_str(&mut s, b.shop_name.as_str());
            push_str(&mut s, " \u{2014} ");
            push_str(&mut s, b.total_text.as_str());
            push_str(&mut s, " PLN (");
            push_date(&mut s, b.date.as_str());
            push_char(&mut s, ')');
        },
        None => {},
    }
    match projection {
        Some(p) => {
            push_str(&mut s, "\n\n\u{1F4C5} Daily avg this month: ");
            push_str(&mut s, p.daily_text.as_str());
            push_str(&mut s, " PLN");
            push_str(&mut s, "\n\u{1F52E} Projected: ");
            push_str(&mut s, p.projected_text.as_str());
            push_str(&mut s, " PLN by month end");
        },
        None => {},
    }
    assert(s@ =~= spec_top_message(shops@, *biggest, *projection));
    s
}

// ---------------------------------------------------------------------------
// Receipt photos.
// ---------------------------------------------------------------------------

/// The reply once a receipt has been stored.
pub open spec fn spec_receipt_saved_message(
    shop_name: Seq<char>,
    total_text: Seq<char>,
    date: Seq<char>,
    junk_text: Seq<char>,
) -> Seq<char> {
    "Shop: "@ + shop_name + "\nTotal: "@ + total_text + " PLN\n Date: "@ + date + "\nJunk food: "@
        + junk_text + " PLN"@
}

/// The reply once a receipt has been stored.
pub fn receipt_saved_message(shop_name: &str, total_text: &str, date: &str, junk_text: &str) -> (r: String)
    ensures
        r@ == spec_receipt_saved_message(shop_name@, total_text@, date@, junk_text@),
{
    let mut s = String::new();
    push_str(&mut s, "Shop: ");
    push_str(&mut s, shop_name);
    push_str(&mut s, "\nTotal: ");
    push_str(&mut s, total_text);
    push_str(&mut s, " PLN\n Date: ");
    push_str(&mut s, date);
    push_str(&mut s, "\nJunk food: ");
    push_str(&mut s, junk_text);
    push_str(&mut s, " PLN");
    assert(s@ =~= spec_receipt_saved_message(shop_name@, total_text@, date@, junk_text@));
    s
}

/// Why reading a receipt failed.
pub enum ReceiptFailure {
    /// The recognition service could not be asked.
    Api(String),
    /// Its answer was not a receipt.
    Json(String),
}

/// The reply when reading a receipt failed, with the error's text.
pub open spec fn spec_failure_message(f: ReceiptFailure) -> Seq<char> {
    match f {
        ReceiptFailure::Api(e) => "API Error: "@ + e@,
        ReceiptFailure::Json(e) => "Error parsing JSON: "@ + e@,
    }
}

/// The reply when reading a receipt failed.
pub fn failure_message(f: &ReceiptFailure) -> (r: String)
    ensures
        r@ == spec_failure_message(*f),
{
    let mut s = String::new();
    match f {
        ReceiptFailure::Api(e) => {
            push_str(&mut s, "API Error: ");
            push_str(&mut s, e.as_str());
        },
        ReceiptFailure::Json(e) => {
            push_str(&mut s, "Error parsing JSON: ");
            push_str(&mut s, e.as_str());
        },
    }
    s
}

/// The fixed reply that goes with a decision, where it has one.
pub open spec fn spec_action_reply(action: Action) -> Option<Seq<char>> {
    match action {
        Action::Answer(Command::Photo) => Some("Please send a photo to upload."@),
        Action::Cancel => Some("Cancelled. Back to normal mode."@),
        Action::NotAPhoto => Some("That's not a photo, dipshit. Send an actual photo."@),
        _ => None,
    }
}

/// The fixed reply that goes with a decision, where it has one.
pub fn action_reply(action: &Action) -> (r: Option<&'static str>)
    ensures
        match spec_action_reply(*action) {
            Some(t) => r is Some && r->0@ == t,
            None => r is None,
        },
{
    match action {
        Action::Answer(Command::Photo) => Some("Please send a photo to upload."),
        Action::Cancel => Some("Cancelled. Back to normal mode."),
        Action::NotAPhoto => Some("That's not a photo, dipshit. Send an actual photo."),
        _ => None,
    }
}

/// The reply to a command from a user who has stored no receipt yet.
pub fn no_data_message() -> (r: &'static str)
    ensures
        r@ == "No data yet. Send a receipt with /photo first!"@,
{
    "No data yet. Send a receipt with /photo first!"
}

/// A message in photo mode that is neither `/cancel` nor a photo is
/// answered by asking for a photo, and the bot keeps waiting for one.
pub proof fn lemma_not_a_photo_is_answered(msg: Incoming)
    requires
        !is_cancel(msg.text),
        msg.photo_sizes is None,
    ensures
        spec_action_reply(spec_step(State::ReceivePhoto, msg).action) == Some(
            "That's not a photo, dipshit. Send an actual photo."@,
        ),
        spec_step(State::ReceivePhoto, msg).next == State::ReceivePhoto,
{
}

/// `/photo` is answered by asking for a photo; `/cancel` in photo mode by
/// confirming the return to normal mode.
pub proof fn lemma_mode_changes_are_answered(msg: Incoming)
    ensures
        (msg.command is Some && msg.command->0 is Photo) ==> spec_action_reply(
            spec_step(State::Start, msg).action,
        ) == Some("Please send a photo to upload."@),
        is_cancel(msg.text) ==> spec_action_reply(spec_step(State::ReceivePhoto, msg).action)
            == Some("Cancelled. Back to normal mode."@),
{
}

/// The reply to a `/month` argument that asks for no month.
pub open spec fn spec_month_query_reply(q: MonthQuery) -> Option<Seq<char>> {
    match q {
        MonthQuery::Usage => Some("Usage: /month YYYY-MM\nExample: /month 2026-07"@),
        MonthQuery::InvalidFormat => Some("Invalid format. Use: /month YYYY-MM"@),
        MonthQuery::InvalidDate => Some("Invalid date. Use: /month YYYY-MM"@),
        MonthQuery::Month { .. } => None,
    }
}

/// The reply to `/month` where its argument is refused; `None` where it
/// names a month to report on.
pub fn month_query_reply(q: MonthQuery) -> (r: Option<&'static str>)
    ensures
        match spec_month_query_reply(q) {
            Some(t) => r is Some && r->0@ == t,
            None => r is None,
        },
        (r is None) == (q is Month),
{
    match q {
        MonthQuery::Usage => Some("Usage: /month YYYY-MM\nExample: /month 2026-07"),
        MonthQuery::InvalidFormat => Some("Invalid format. Use: /month YYYY-MM"),
        MonthQuery::InvalidDate => Some("Invalid date. Use: /month YYYY-MM"),
        MonthQuery::Month { .. } => None,
    }
}

// ---------------------------------------------------------------------------
// What the replies are for.
// ---------------------------------------------------------------------------

/// Whether `tail` is how `r` ends.
pub open spec fn ends_with(r: Seq<char>, tail: Seq<char>) -> bool {
    tail.len() <= r.len() && r.subrange(r.len() - tail.len(), r.len() as int) == tail
}

proof fn lemma_ends_with_concat(a: Seq<char>, tail: Seq<char>)
    ensures
        ends_with(a + tail, tail),
{
    assert((a + tail).subrange(a.len() as int, (a + tail).len() as int) =~= tail);
}

/// The month report shows the one category it is given: its line stands
/// in the reply.
pub proof fn lemma_expenses_shows_single_category(
    year: int,
    month: int,
    c: CategoryTotal,
    totals: MonthTotals,
)
    ensures
        ({
            let r = spec_expenses_message(year, month, seq![c], totals);
            exists|k: int|
                0 <= k && k + category_line(c).len() <= r.len() && #[trigger] r.subrange(
                    k,
                    k + category_line(c).len(),
                ) == category_line(c)
        }),
{
    let cs = seq![c];
    let r = spec_expenses_message(year, month, cs, totals);
    assert(cs.drop_last() =~= Seq::<CategoryTotal>::empty());
    assert(category_lines(cs.drop_last()) =~= Seq::<char>::empty());
    assert(cs.last() == c);
    assert(category_lines(cs) =~= category_line(c));
    let head = "\u{1F4CA} Expenses \u{2014} "@ + month_year(year, month) + "\n\n"@;
    let k = head.len() as int;
    assert(r.subrange(k, k + category_line(c).len()) =~= category_line(c));
}

/// One more category in the month gives the report exactly one more line,
/// that category's, placed after the lines of the others and before the
/// totals; nothing else changes.
pub proof fn lemma_expenses_line_per_category(
    year: int,
    month: int,
    categories: Seq<CategoryTotal>,
    c: CategoryTotal,
    totals: MonthTotals,
)
    requires
        categories.len() >= 1,
    ensures
        ({
            let before = spec_expenses_message(year, month, categories, totals);
            let after = spec_expenses_message(year, month, categories.push(c), totals);
            exists|k: int|
                0 <= k && k + rule_line().len() <= before.len() && #[trigger] before.subrange(
                    k,
                    k + rule_line().len(),
                ) == rule_line() && after == before.subrange(0, k) + category_line(c)
                    + before.subrange(k, before.len() as int)
        }),
{
    let cs = categories.push(c);
    assert(cs.drop_last() =~= categories);
    let head = "\u{1F4CA} Expenses \u{2014} "@ + month_year(year, month) + "\n\n"@;
    let tail = rule_line() + "\u{1F4B0} Total: "@ + totals.items_total_text@ + " PLN ("@ + int_text(
        totals.receipt_count as int,
    ) + " receipts)\n"@ + match totals.junk {
        Some(j) => "\u{1F355} Junk food: "@ + j.amount_text@ + " PLN ("@ + j.percent_text@ + "%)"@,
        None => Seq::empty(),
    };
    let before = spec_expenses_message(year, month, categories, totals);
    let after = spec_expenses_message(year, month, cs, totals);
    assert(before =~= head + category_lines(categories) + tail);
    assert(after =~= head + category_lines(categories) + category_line(c) + tail);
    let k = (head + category_lines(categories)).len() as int;
    assert(before.subrange(0, k) =~= head + category_lines(categories));
    assert(before.subrange(k, before.len() as int) =~= tail);
    assert(before.subrange(k, k + rule_line().len()) =~= rule_line());
    assert(after =~= before.subrange(0, k) + category_line(c) + before.subrange(k, before.len() as int));
}

/// A line of a ranking: two spaces, the rank, a dot, then the category's
/// emoji, label and total.
pub open spec fn ranked_line(rank: char, c: CategoryTotal) -> Seq<char> {
    seq![' ', ' ', rank, '.', ' '] + spec_category_emoji(c.category@) + seq![' ']
        + spec_category_label(c.category@) + " \u{2014} "@ + c.total_text@ + " PLN\n"@
}

/// Where the current month has categories, the statistics end with the
/// top-categories heading and lines ranked 1, 2 and 3 for its first three
/// categories (all of them where there are fewer), in the given order.
pub proof fn lemma_stats_top_categories(
    year: int,
    month: int,
    current: PeriodTotal,
    previous: PeriodTotal,
    change: Option<Change>,
    average_text: Seq<char>,
    junk: Option<JunkShare>,
    categories: Seq<CategoryTotal>,
)
    requires
        categories.len() >= 1,
    ensures
        ends_with(
            spec_stats_message(year, month, current, previous, change, average_text, junk, categories),
            "\n\u{1F3C6} Top categories:\n"@ + ranked_line('1', categories[0]) + (if categories.len()
                >= 2 {
                ranked_line('2', categories[1])
            } else {
                Seq::empty()
            }) + (if categories.len() >= 3 {
                ranked_line('3', categories[2])
            } else {
                Seq::empty()
            }),
        ),
{
    let n: int = if categories.len() < 3 { categories.len() as int } else { 3 };
    let top = categories.subrange(0, n);
    let one = ranked_line('1', categories[0]);
    let two = if categories.len() >= 2 { ranked_line('2', categories[1]) } else { Seq::empty() };
    let three = if categories.len() >= 3 { ranked_line('3', categories[2]) } else { Seq::empty() };
    reveal_strlit("  ");
    reveal_strlit(". ");
    assert(int_text(1) =~= seq!['1']);
    assert(int_text(2) =~= seq!['2']);
    assert(int_text(3) =~= seq!['3']);
    assert(top_category_line(0, categories[0]) =~= one);
    let t1 = categories.subrange(0, 1);
    assert(t1.drop_last() =~= Seq::<CategoryTotal>::empty());
    assert(top_category_lines(t1.drop_last()) =~= Seq::<char>::empty());
    assert(t1.last() == categories[0]);
    assert(top_category_lines(t1) =~= one);
    if n >= 2 {
        let t2 = categories.subrange(0, 2);
        assert(t2.drop_last() =~= t1);
        assert(t2.last() == categories[1]);
        assert(top_category_line(1, categories[1]) =~= two);
        assert(top_category_lines(t2) =~= one + two);
        if n >= 3 {
            let t3 = categories.subrange(0, 3);
            assert(t3.drop_last() =~= t2);
            assert(t3.last() == categories[2]);
            assert(top_category_line(2, categories[2]) =~= three);
            assert(top_category_lines(t3) =~= one + two + three);
        }
    }
    assert(top_category_lines(top) =~= one + two + three);
    let p = spec_previous_month(year, month);
    let rest = "\u{1F4C8} Statistics\n\n"@ + period_line(year, month, current) + period_line(
        p.0,
        p.1,
        previous,
    ) + change_part(change) + seq!['\n'] + average_part(current.receipt_count as int, average_text)
        + junk_part(junk);
    let tail = "\n\u{1F3C6} Top categories:\n"@ + one + two + three;
    assert(spec_stats_message(year, month, current, previous, change, average_text, junk, categories)
        =~= rest + tail);
    lemma_ends_with_concat(rest, tail);
}

/// With two months or more and an overall change, the trend ends with the
/// overall line: a rising chart (U+1F4C8) for a rise, a falling chart
/// (U+1F4C9) for a fall.
pub proof fn lemma_trend_overall_line(entries: Seq<TrendEntry>, average_text: Seq<char>, c: Change)
    requires
        entries.len() >= 2,
    ensures
        ends_with(
            spec_trend_message(entries, average_text, Some(c)),
            seq!['\n', if c.rising { '\u{1F4C8}' } else { '\u{1F4C9}' }] + " Overall: "@
                + c.percent_text@ + seq!['%'],
        ),
{
    reveal_strlit("\u{1F4C8}");
    reveal_strlit("\u{1F4C9}");
    let tail = seq!['\n', if c.rising { '\u{1F4C8}' } else { '\u{1F4C9}' }] + " Overall: "@
        + c.percent_text@ + seq!['%'];
    let head = "\u{1F4CA} Spending trend\n\n"@ + trend_lines(entries) + "\n\u{1F4B0} Avg: "@
        + average_text + " PLN/month ("@ + int_text(receipt_total(entries)) + " receipts total)"@;
    assert(seq!['\n'] + arrow(c.rising) =~= seq!['\n', if c.rising { '\u{1F4C8}' } else { '\u{1F4C9}' }]);
    assert(spec_trend_message(entries, average_text, Some(c)) =~= head + tail);
    lemma_ends_with_concat(head, tail);
}

/// The items of `items` that are junk food, in order.
pub open spec fn junk_items(items: Seq<CategoryItem>) -> Seq<CategoryItem> {
    items.filter(|i: CategoryItem| i.is_junk_food)
}

/// The junk-food count of the category reply is the number of items marked
/// as junk food.
pub proof fn lemma_junk_count_counts_junk_items(items: Seq<CategoryItem>)
    ensures
        junk_count(items) == junk_items(items).len(),
    decreases items.len(),
{
    reveal(Seq::filter);
    if items.len() > 0 {
        lemma_junk_count_counts_junk_items(items.drop_last());
    }
}

/// Where some items are junk food, the category reply ends with their
/// number; where none is, it says nothing of junk food.
pub proof fn lemma_category_message_junk_line(
    category: Seq<char>,
    year: int,
    month: int,
    items: Seq<CategoryItem>,
    total_text: Seq<char>,
)
    requires
        items.len() >= 1,
    ensures
        junk_items(items).len() > 0 ==> ends_with(
            spec_category_message(category, year, month, items, total_text),
            "\n\u{1F355} Junk food items: "@ + int_text(junk_items(items).len() as int),
        ),
        junk_items(items).len() == 0 ==> ends_with(
            spec_category_message(category, year, month, items, total_text),
            " PLN ("@ + int_text(items.len() as int) + " items)"@,
        ),
{
    lemma_junk_count_counts_junk_items(items);
    let head = spec_category_emoji(category) + seq![' '] + spec_category_label(category)
        + " \u{2014} "@ + month_year(year, month) + "\n\n"@ + category_item_lines(items) + rule_line()
        + "\u{1F4B0} Total: "@ + total_text;
    let counted = " PLN ("@ + int_text(items.len() as int) + " items)"@;
    let r = spec_category_message(category, year, month, items, total_text);
    if junk_count(items) > 0 {
        let tail = "\n\u{1F355} Junk food items: "@ + int_text(junk_count(items) as int);
        assert(r =~= head + counted + tail);
        lemma_ends_with_concat(head + counted, tail);
    } else {
        assert(r =~= head + counted);
        lemma_ends_with_concat(head, counted);
    }
}

} // verus!
