use william::arguments::{parse_category_arg, parse_month_arg, CategoryQuery, MonthQuery};
use william::reports::month_query_reply;

#[test]
fn month_argument_valid() {
    assert_eq!(parse_month_arg("2026-07"), MonthQuery::Month { year: 2026, month: 7 });
    assert_eq!(parse_month_arg("  2024-12 "), MonthQuery::Month { year: 2024, month: 12 });
    assert_eq!(parse_month_arg("2020-1"), MonthQuery::Month { year: 2020, month: 1 });
    assert_eq!(parse_month_arg("2100-+12"), MonthQuery::Month { year: 2100, month: 12 });
}

#[test]
fn month_argument_usage() {
    assert_eq!(parse_month_arg(""), MonthQuery::Usage);
    assert_eq!(parse_month_arg("   "), MonthQuery::Usage);
}

#[test]
fn month_argument_invalid_format() {
    assert_eq!(parse_month_arg("2026"), MonthQuery::InvalidFormat);
    assert_eq!(parse_month_arg("2026-07-01"), MonthQuery::InvalidFormat);
    assert_eq!(parse_month_arg("July"), MonthQuery::InvalidFormat);
    assert_eq!(parse_month_arg("-2026-07"), MonthQuery::InvalidFormat);
}

#[test]
fn month_argument_invalid_date() {
    assert_eq!(parse_month_arg("2019-05"), MonthQuery::InvalidDate);
    assert_eq!(parse_month_arg("2101-05"), MonthQuery::InvalidDate);
    assert_eq!(parse_month_arg("2026-13"), MonthQuery::InvalidDate);
    assert_eq!(parse_month_arg("2026-0"), MonthQuery::InvalidDate);
    assert_eq!(parse_month_arg("abc-07"), MonthQuery::InvalidDate);
    assert_eq!(parse_month_arg("2026-"), MonthQuery::InvalidDate);
    assert_eq!(parse_month_arg("-07"), MonthQuery::InvalidDate);
}

#[test]
fn month_argument_reads_every_written_month() {
    for year in [2020i32, 2026, 2100] {
        for month in 1..=12u32 {
            let arg = format!("{:04}-{:02}", year, month);
            assert_eq!(parse_month_arg(&arg), MonthQuery::Month { year, month });
        }
    }
}

#[test]
fn category_argument() {
    assert!(matches!(parse_category_arg(""), CategoryQuery::Usage));
    assert!(matches!(parse_category_arg("  "), CategoryQuery::Usage));
    assert!(matches!(parse_category_arg("groceries"), CategoryQuery::Known("GROCERIES")));
    assert!(matches!(parse_category_arg(" taxi carsharing "), CategoryQuery::Known("TAXI_CARSHARING")));
    match parse_category_arg("  pizza ") {
        CategoryQuery::Unknown(t) => assert_eq!(t, "pizza"),
        _ => panic!("pizza is no category"),
    }
}

#[test]
fn refused_month_arguments_are_answered() {
    assert_eq!(month_query_reply(parse_month_arg("")), Some("Usage: /month YYYY-MM\nExample: /month 2026-07"));
    assert_eq!(month_query_reply(parse_month_arg("2026")), Some("Invalid format. Use: /month YYYY-MM"));
    assert_eq!(month_query_reply(parse_month_arg("2026-13")), Some("Invalid date. Use: /month YYYY-MM"));
    assert_eq!(month_query_reply(parse_month_arg("2026-07")), None);
}
