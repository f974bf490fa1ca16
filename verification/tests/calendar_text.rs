use amd::date::iso_day;
use chrono::NaiveDate;

#[test]
fn iso_day_matches_chrono_format() {
    let days = [
        (2024, 9, 1), (2024, 2, 29), (1999, 12, 31), (1000, 1, 1), (999, 10, 10),
        (5, 6, 7), (0, 1, 1), (-1, 1, 1), (-45, 3, 15), (-262143, 1, 1),
        (9999, 12, 31), (10000, 1, 1), (123456, 7, 8), (262142, 12, 31),
    ];
    for (y, m, d) in days {
        let date = NaiveDate::from_ymd_opt(y, m, d).unwrap();
        assert_eq!(iso_day(y, m, d), date.format("%Y-%m-%d").to_string(), "{y}-{m}-{d}");
    }
}

#[test]
fn iso_day_exact_texts() {
    assert_eq!(iso_day(2024, 3, 7), "2024-03-07");
    assert_eq!(iso_day(7, 1, 9), "0007-01-09");
    assert_eq!(iso_day(-7, 1, 9), "-0007-01-09");
    assert_eq!(iso_day(10000, 11, 30), "+10000-11-30");
}
