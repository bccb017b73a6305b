use william::dialogue::{step, Action, Command, Incoming, State};
use william::reports::{
    action_reply, category_message, category_usage_message, deleted_message, expenses_message,
    failure_message, history_message, no_data_message, receipt_saved_message, stats_message,
    top_message, trend_message, unknown_category_message, CategoryItem, CategoryTotal, Change,
    JunkShare, MonthTotals, PeriodTotal, Projection, ReceiptFailure, ReceiptSummary, ShopTotal,
    TrendEntry,
};

const RULE: &str = "\n\u{2501}\u{2501}\u{2501}\u{2501}\u{2501}\u{2501}\u{2501}\u{2501}\u{2501}\u{2501}\u{2501}\u{2501}\u{2501}\u{2501}\u{2501}\u{2501}\u{2501}\u{2501}\n";

fn cat(category: &str, total: f64, count: i64) -> CategoryTotal {
    CategoryTotal { category: category.to_string(), total_text: format!("{:.2}", total), item_count: count }
}

#[test]
fn expenses_without_categories() {
    let totals = MonthTotals { items_total_text: "0.00".to_string(), receipt_count: 0, junk: None };
    assert_eq!(
        expenses_message(2024, 3, &vec![], &totals),
        "\u{1F4CA} No expenses for March 2024 yet."
    );
}

#[test]
fn expenses_report() {
    let cats = vec![cat("GROCERIES", 120.5, 7), cat("SOMETHING", 3.0, 1)];
    let totals = MonthTotals {
        items_total_text: format!("{:.2}", 123.5),
        receipt_count: 3,
        junk: Some(JunkShare { amount_text: format!("{:.2}", 12.35), percent_text: format!("{:.1}", 10.0) }),
    };
    let mut expected = format!("\u{1F4CA} Expenses \u{2014} {} {}\n\n", "March", 2024);
    expected.push_str(&format!("{} {}: {:.2} PLN ({} items)\n", "\u{1F6D2}", "Groceries", 120.5, 7));
    expected.push_str(&format!("{} {}: {:.2} PLN ({} items)\n", "\u{2753}", "Other", 3.0, 1));
    expected.push_str(RULE);
    expected.push_str(&format!("\u{1F4B0} Total: {:.2} PLN ({} receipts)\n", 123.5, 3));
    expected.push_str(&format!("\u{1F355} Junk food: {:.2} PLN ({:.1}%)", 12.35, 10.0));
    assert_eq!(expenses_message(2024, 3, &cats, &totals), expected);
    let no_junk = MonthTotals { items_total_text: "0.00".to_string(), receipt_count: -2, junk: None };
    assert!(expenses_message(-5, 13, &cats, &no_junk).starts_with("\u{1F4CA} Expenses \u{2014} ??? -5\n\n"));
    assert!(expenses_message(-5, 13, &cats, &no_junk).ends_with("\u{1F4B0} Total: 0.00 PLN (-2 receipts)\n"));
}

#[test]
fn stats_report() {
    let cur = PeriodTotal { total_text: "200.00".to_string(), receipt_count: 4 };
    let prev = PeriodTotal { total_text: "100.00".to_string(), receipt_count: 2 };
    let change = Some(Change { rising: true, percent_text: format!("{:+.1}", 100.0) });
    let junk = Some(JunkShare { amount_text: "20.00".to_string(), percent_text: "10.0".to_string() });
    let cats = vec![cat("GROCERIES", 100.0, 3), cat("SPORT", 50.0, 1), cat("MEDICAL", 30.0, 1), cat("UTILITIES", 20.0, 1)];
    let text = stats_message(2024, 1, &cur, &prev, &change, "50.00", &junk, &cats);
    let mut expected = String::from("\u{1F4C8} Statistics\n\n");
    expected.push_str("\u{1F4C5} January 2024: 200.00 PLN (4 receipts)\n");
    expected.push_str("\u{1F4C5} December 2023: 100.00 PLN (2 receipts)\n");
    expected.push_str("\u{1F4C8} Change: +100.0%\n");
    expected.push('\n');
    expected.push_str("\u{1F4B0} Avg receipt: 50.00 PLN\n");
    expected.push_str("\u{1F355} Junk food: 20.00 PLN (10.0%)\n");
    expected.push_str("\n\u{1F3C6} Top categories:\n");
    expected.push_str("  1. \u{1F6D2} Groceries \u{2014} 100.00 PLN\n");
    expected.push_str("  2. \u{1F3CB} Sport \u{2014} 50.00 PLN\n");
    expected.push_str("  3. \u{1F3E5} Medical \u{2014} 30.00 PLN\n");
    assert_eq!(text, expected);
}

#[test]
fn stats_report_without_history() {
    let cur = PeriodTotal { total_text: "0.00".to_string(), receipt_count: 0 };
    let prev = PeriodTotal { total_text: "0.00".to_string(), receipt_count: 0 };
    let falling = Some(Change { rising: false, percent_text: "-5.0".to_string() });
    let text = stats_message(2024, 7, &cur, &prev, &None, "ignored", &None, &vec![]);
    assert_eq!(
        text,
        "\u{1F4C8} Statistics\n\n\u{1F4C5} July 2024: 0.00 PLN (0 receipts)\n\u{1F4C5} June 2024: 0.00 PLN (0 receipts)\n\n"
    );
    let text = stats_message(2024, 7, &cur, &prev, &falling, "ignored", &None, &vec![]);
    assert!(text.contains("\u{1F4C9} Change: -5.0%\n"));
}

fn receipt(shop: &str, total: &str, date: &str) -> ReceiptSummary {
    ReceiptSummary { shop_name: shop.to_string(), total_text: total.to_string(), date: date.to_string() }
}

#[test]
fn history_report() {
    assert_eq!(history_message(&vec![]), "\u{1F4CB} No receipts found.");
    let rs = vec![receipt("Biedronka", "12.30", "2024-05-01 00:00:00"), receipt("Unknown", "5.00", "2024-04")];
    let mut expected = String::from("\u{1F4CB} Recent receipts:\n\n");
    expected.push_str("1. Biedronka \u{2014} 12.30 PLN\n   \u{1F4C5} 2024-05-01\n\n");
    expected.push_str("2. Unknown \u{2014} 5.00 PLN\n   \u{1F4C5} 2024-04\n\n");
    assert_eq!(history_message(&rs), expected);
}

#[test]
fn deleted_report() {
    assert_eq!(deleted_message(&None), "Nothing to delete.");
    assert_eq!(
        deleted_message(&Some(receipt("Zabka", "9.99", "2024-05-02 13:14:15"))),
        "\u{1F5D1}\u{FE0F} Deleted last receipt:\nZabka \u{2014} 9.99 PLN (2024-05-02)"
    );
}

#[test]
fn category_lists() {
    let names = [
        "RENT_MORTGAGE", "UTILITIES", "GROCERIES", "HOUSEHOLD_CHEMS", "OBLIGATIONS",
        "RESTAURANTS_CAFES", "ENTERTAINMENT", "CLOTHING_SHOES", "PUBLIC_TRANSPORT",
        "TAXI_CARSHARING", "MEDICAL", "PERSONAL_CARE", "SPORT", "EMERGENCY_FUND", "INVESTMENTS",
    ];
    let mut list = String::new();
    for name in names.iter() {
        list.push_str(&format!("  {} {}\n", william::category::category_emoji(name), name.to_lowercase()));
    }
    assert_eq!(category_usage_message(), format!("Usage: /category <name>\n\nAvailable categories:\n{}", list));
    assert_eq!(unknown_category_message("pizza"), format!("Unknown category: \"pizza\"\n\nAvailable:\n{}", list));
    assert!(list.starts_with("  \u{1F3E0} rent_mortgage\n"));
}

#[test]
fn category_report() {
    assert_eq!(
        category_message("GROCERIES", 2024, 5, &vec![], "0.00"),
        "\u{1F6D2} No Groceries expenses for May 2024."
    );
    let items = vec![
        CategoryItem { item_name: "Chips".to_string(), price_text: "5.49".to_string(), shop_name: "Lidl".to_string(), date: "2024-05-03 00:00:00".to_string(), is_junk_food: true },
        CategoryItem { item_name: "Milk".to_string(), price_text: "3.20".to_string(), shop_name: "Lidl".to_string(), date: "2024-05-01 00:00:00".to_string(), is_junk_food: false },
    ];
    let mut expected = String::from("\u{1F6D2} Groceries \u{2014} May 2024\n\n");
    expected.push_str("\u{2022} Chips \u{2014} 5.49 PLN \u{1F355}\n  Lidl | 2024-05-03\n");
    expected.push_str("\u{2022} Milk \u{2014} 3.20 PLN\n  Lidl | 2024-05-01\n");
    expected.push_str(RULE);
    expected.push_str("\u{1F4B0} Total: 8.69 PLN (2 items)");
    expected.push_str("\n\u{1F355} Junk food items: 1");
    assert_eq!(category_message("GROCERIES", 2024, 5, &items, "8.69"), expected);
    let healthy = vec![CategoryItem { is_junk_food: false, ..CategoryItem { item_name: "Milk".to_string(), price_text: "3.20".to_string(), shop_name: "Lidl".to_string(), date: "x".to_string(), is_junk_food: false } }];
    assert!(category_message("GROCERIES", 2024, 5, &healthy, "3.20").ends_with("(1 items)"));
}

#[test]
fn trend_report() {
    assert_eq!(trend_message(&vec![], "0.00", &None), "\u{1F4CA} No spending data yet.");
    let entries = vec![
        TrendEntry { year: 2024, month: 1, bar_len: 6, total_text: format!("{:>8.0}", 100.0), receipt_count: 3 },
        TrendEntry { year: 2024, month: 2, bar_len: 12, total_text: format!("{:>8.0}", 200.0), receipt_count: 5 },
    ];
    let overall = Some(Change { rising: true, percent_text: "+100.0".to_string() });
    let mut expected = String::from("\u{1F4CA} Spending trend\n\n");
    expected.push_str(&format!("Jan 2024 {}{} {:>8.0} PLN (3)\n", "\u{2588}".repeat(6), "\u{2591}".repeat(6), 100.0));
    expected.push_str(&format!("Feb 2024 {}{} {:>8.0} PLN (5)\n", "\u{2588}".repeat(12), "", 200.0));
    expected.push_str("\n\u{1F4B0} Avg: 150.00 PLN/month (8 receipts total)");
    expected.push_str("\n\u{1F4C8} Overall: +100.0%");
    assert_eq!(trend_message(&entries, "150.00", &overall), expected);
    let single = vec![TrendEntry { year: 2024, month: 3, bar_len: 0, total_text: "       0".to_string(), receipt_count: 1 }];
    assert!(trend_message(&single, "0.00", &overall).ends_with("(1 receipts total)"));
}

#[test]
fn top_report() {
    assert_eq!(top_message(&vec![], &None, &None), "\u{1F3C6} No data yet.");
    let shops: Vec<ShopTotal> = ["A", "B", "C", "D"]
        .iter()
        .enumerate()
        .map(|(i, n)| ShopTotal { shop_name: n.to_string(), total_text: format!("{}.00", 40 - i * 10), visit_count: 1 })
        .collect();
    let biggest = Some(receipt("A", "30.00", "2024-05-01 00:00:00"));
    let projection = Some(Projection { daily_text: "2.00".to_string(), projected_text: "62.00".to_string() });
    let mut expected = String::from("\u{1F3C6} Spending insights\n\n\u{1F3EA} Top shops:\n");
    expected.push_str("\u{1F947} A \u{2014} 40.00 PLN (1 visits)\n");
    expected.push_str("\u{1F948} B \u{2014} 30.00 PLN (1 visits)\n");
    expected.push_str("\u{1F949} C \u{2014} 20.00 PLN (1 visits)\n");
    expected.push_str("   D \u{2014} 10.00 PLN (1 visits)\n");
    expected.push_str("\n\u{1F4B8} Biggest receipt:\n  A \u{2014} 30.00 PLN (2024-05-01)");
    expected.push_str("\n\n\u{1F4C5} Daily avg this month: 2.00 PLN");
    expected.push_str("\n\u{1F52E} Projected: 62.00 PLN by month end");
    assert_eq!(top_message(&shops, &biggest, &projection), expected);
}

#[test]
fn photo_replies() {
    assert_eq!(
        receipt_saved_message("Lidl", "12.00", "2024-05-01 00:00:00", "3.50"),
        "Shop: Lidl\nTotal: 12.00 PLN\n Date: 2024-05-01 00:00:00\nJunk food: 3.50 PLN"
    );
    assert_eq!(failure_message(&ReceiptFailure::Api("timeout".to_string())), "API Error: timeout");
    assert_eq!(failure_message(&ReceiptFailure::Json("bad".to_string())), "Error parsing JSON: bad");
}

#[test]
fn fixed_replies() {
    assert_eq!(action_reply(&Action::Answer(Command::Photo)), Some("Please send a photo to upload."));
    assert_eq!(action_reply(&Action::Cancel), Some("Cancelled. Back to normal mode."));
    assert_eq!(action_reply(&Action::NotAPhoto), Some("That's not a photo, dipshit. Send an actual photo."));
    assert_eq!(action_reply(&Action::Answer(Command::Help)), None);
    assert_eq!(action_reply(&Action::ProcessPhoto), None);
    assert_eq!(no_data_message(), "No data yet. Send a receipt with /photo first!");
}

#[test]
fn refused_messages_are_answered() {
    let s = step(State::ReceivePhoto, Incoming { command: None, text: Some("hi".to_string()), photo_sizes: None });
    assert_eq!(action_reply(&s.action), Some("That's not a photo, dipshit. Send an actual photo."));
    assert_eq!(s.next, State::ReceivePhoto);
}
