use william::calendar::{
    date_display, days_in_month, format_timestamp, is_leap_year, month_name, month_name_short,
    month_range, month_start, next_month, now, previous_month, trend_start, trend_start_date,
    trend_window_positions, LocalTime,
};

#[test]
fn month_names() {
    let long = [
        "January", "February", "March", "April", "May", "June", "July", "August", "September",
        "October", "November", "December",
    ];
    let short = ["Jan", "Feb", "Mar", "Apr", "May", "Jun", "Jul", "Aug", "Sep", "Oct", "Nov", "Dec"];
    for m in 1..=12u32 {
        assert_eq!(month_name(m), long[(m - 1) as usize]);
        assert_eq!(month_name_short(m as i32), short[(m - 1) as usize]);
    }
    assert_eq!(month_name(0), "???");
    assert_eq!(month_name(13), "???");
    assert_eq!(month_name_short(0), "???");
    assert_eq!(month_name_short(-1), "???");
}

#[test]
fn month_range_of_ordinary_month() {
    let (start, end) = month_range(2024, 3);
    assert_eq!(start, "2024-03-01 00:00:00");
    assert_eq!(end, "2024-04-01 00:00:00");
}

#[test]
fn month_range_wraps_at_december() {
    let (start, end) = month_range(2024, 12);
    assert_eq!(start, "2024-12-01 00:00:00");
    assert_eq!(end, "2025-01-01 00:00:00");
}

#[test]
fn month_start_pads_like_format() {
    for (y, m) in [(5i32, 1u32), (-5, 7), (123, 10), (20240, 100), (0, 0)] {
        assert_eq!(month_start(y, m), format!("{:04}-{:02}-01 00:00:00", y, m));
    }
}

#[test]
fn next_and_previous_month() {
    assert_eq!(next_month(2024, 12), (2025, 1));
    assert_eq!(next_month(2024, 5), (2024, 6));
    assert_eq!(previous_month(2024, 1), (2023, 12));
    assert_eq!(previous_month(2024, 5), (2024, 4));
    for m in 1..=12u32 {
        let (py, pm) = previous_month(2024, m);
        assert_eq!(next_month(py, pm), (2024, m));
    }
}

#[test]
fn trend_window_covers_six_months() {
    assert_eq!(trend_start(2024, 3), (2023, 10));
    assert_eq!(trend_start(2024, 6), (2024, 1));
    assert_eq!(trend_start(2024, 5), (2023, 12));
    assert_eq!(trend_start(2024, 12), (2024, 7));
    assert_eq!(trend_start_date(2024, 3), "2023-10-01 00:00:00");
    for m in 1..=12i32 {
        let (y, sm) = trend_start(2024, m);
        assert_eq!(12 * 2024 + (m - 1) - (12 * y + (sm - 1)), 5);
    }
}

/// The window start as a loop that steps back a year at a time.
fn window_start_by_steps(year: i32, month: i32) -> (i32, i32) {
    let mut start_month = month - 5;
    let mut start_year = year;
    while start_month <= 0 {
        start_month += 12;
        start_year -= 1;
    }
    (start_year, start_month)
}

#[test]
fn trend_window_for_any_month_number() {
    for m in -40..=40i32 {
        assert_eq!(trend_start(2024, m), window_start_by_steps(2024, m));
    }
    assert_eq!(trend_start(2024, 20), (2024, 15));
    assert_eq!(trend_start(2024, -7), (2022, 12));
}

#[test]
fn leap_years_and_month_lengths() {
    assert!(is_leap_year(2024));
    assert!(!is_leap_year(2023));
    assert!(!is_leap_year(1900));
    assert!(is_leap_year(2000));
    assert!(is_leap_year(-4));
    assert!(!is_leap_year(-100));
    assert_eq!(days_in_month(2024, 2), 29);
    assert_eq!(days_in_month(2023, 2), 28);
    assert_eq!(days_in_month(1900, 2), 28);
    assert_eq!(days_in_month(2000, 2), 29);
    assert_eq!(days_in_month(2024, 4), 30);
    assert_eq!(days_in_month(2024, 12), 31);
    assert_eq!(days_in_month(2024, 13), 30);
    for year in [2023i32, 2024, 1900, 2000] {
        let total: u32 = (1..=12u32).map(|m| days_in_month(year, m)).sum();
        assert_eq!(total, if is_leap_year(year) { 366 } else { 365 });
    }
}

#[test]
fn date_display_takes_the_date_part() {
    assert_eq!(date_display("2024-05-01 00:00:00"), "2024-05-01");
    assert_eq!(date_display("2024-05-01"), "2024-05-01");
    assert_eq!(date_display("2024-05"), "2024-05");
    assert_eq!(date_display(""), "");
}

#[test]
fn date_display_matches_get_on_non_ascii_text() {
    for s in ["\u{e9}\u{e9}\u{e9}\u{e9}\u{e9}", "a\u{e9}\u{e9}\u{e9}\u{e9}\u{e9}\u{e9}", "2024-05-\u{e9}1 00", "\u{1F4C5}\u{1F4C5}\u{1F4C5}"] {
        assert_eq!(date_display(s), s.get(..10).unwrap_or(s));
    }
}

#[test]
fn timestamps_are_written_like_chrono() {
    let t = LocalTime { year: 2024, month: 3, day: 5, hour: 7, minute: 8, second: 9, nanosecond: 0 };
    assert_eq!(format_timestamp(&t), "2024-03-05 07:08:09");
    let leap = LocalTime { year: 2016, month: 12, day: 31, hour: 23, minute: 59, second: 59, nanosecond: 1_500_000_000 };
    assert_eq!(format_timestamp(&leap), "2016-12-31 23:59:60");
    for (y, m, d) in [(2024, 3, 5), (12345, 1, 2), (-7, 11, 30), (5, 6, 7)] {
        let date = chrono::NaiveDate::from_ymd_opt(y, m, d).unwrap();
        let dt = date.and_hms_opt(13, 4, 5).unwrap();
        let expected = dt.format("%Y-%m-%d %H:%M:%S").to_string();
        let t = LocalTime { year: y, month: m, day: d, hour: 13, minute: 4, second: 5, nanosecond: 0 };
        assert_eq!(format_timestamp(&t), expected);
    }
}

#[test]
fn clock_reading_is_well_formed() {
    let t = now();
    assert!((1..=12).contains(&t.month));
    assert!((1..=31).contains(&t.day));
    assert!(t.hour < 24 && t.minute < 60 && t.second < 60);
    assert!(t.year >= 2024);
    assert_eq!(format_timestamp(&t).len(), 19);
}

#[test]
fn month_range_orders_timestamps_of_its_month() {
    let (start, end) = month_range(2024, 2);
    let inside = format_timestamp(&LocalTime { year: 2024, month: 2, day: 29, hour: 23, minute: 59, second: 59, nanosecond: 0 });
    let first = format_timestamp(&LocalTime { year: 2024, month: 2, day: 1, hour: 0, minute: 0, second: 0, nanosecond: 0 });
    let before = format_timestamp(&LocalTime { year: 2024, month: 1, day: 31, hour: 23, minute: 59, second: 59, nanosecond: 0 });
    let after = format_timestamp(&LocalTime { year: 2024, month: 3, day: 1, hour: 0, minute: 0, second: 0, nanosecond: 0 });
    assert!(start <= inside && inside < end);
    assert!(start <= first && first < end);
    assert!(!(start <= before && before < end));
    assert!(!(start <= after && after < end));
}

#[test]
fn replies_show_the_date_of_a_timestamp() {
    let t = LocalTime { year: 2024, month: 11, day: 9, hour: 18, minute: 30, second: 1, nanosecond: 5 };
    assert_eq!(date_display(&format_timestamp(&t)), "2024-11-09");
}

#[test]
fn timestamps_sort_as_their_fields() {
    let stamps = [
        (2023, 12, 31, 23, 59, 59),
        (2024, 1, 1, 0, 0, 0),
        (2024, 1, 1, 0, 0, 1),
        (2024, 1, 1, 9, 0, 0),
        (2024, 1, 1, 10, 0, 0),
        (2024, 1, 2, 0, 0, 0),
        (2024, 10, 1, 0, 0, 0),
        (2024, 11, 1, 0, 0, 0),
    ];
    for a in stamps.iter() {
        for b in stamps.iter() {
            let ta = format_timestamp(&LocalTime { year: a.0, month: a.1, day: a.2, hour: a.3, minute: a.4, second: a.5, nanosecond: 0 });
            let tb = format_timestamp(&LocalTime { year: b.0, month: b.1, day: b.2, hour: b.3, minute: b.4, second: b.5, nanosecond: 0 });
            assert_eq!(ta < tb, a < b);
        }
    }
}

#[test]
fn recognised_dates_fall_in_their_month() {
    let now = LocalTime { year: 2024, month: 3, day: 5, hour: 7, minute: 8, second: 9, nanosecond: 0 };
    let stored = william::photo::stored_date(Some("2024-02-29"), &now);
    let (feb_start, feb_end) = month_range(2024, 2);
    let (mar_start, mar_end) = month_range(2024, 3);
    assert!(feb_start <= stored && stored < feb_end);
    assert!(!(mar_start <= stored && stored < mar_end));
}

#[test]
fn trend_window_keeps_six_months_up_to_now() {
    let months = vec![(2025, 12), (2026, 1), (2026, 3), (2026, 6), (2026, 7), (2027, 1)];
    assert_eq!(trend_window_positions(&months, 2026, 6), vec![1, 2, 3]);
    let across_year = vec![(2025, 8), (2025, 9), (2025, 12), (2026, 2), (2026, 3)];
    assert_eq!(trend_window_positions(&across_year, 2026, 2), vec![1, 2, 3]);
    assert_eq!(trend_window_positions(&vec![], 2026, 2), Vec::<usize>::new());
}

#[test]
fn clock_day_exists_in_its_month() {
    let t = now();
    assert!(t.day <= days_in_month(t.year, t.month));
}
