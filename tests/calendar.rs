use area_weather::calendar::{format_date, format_date_time, parse_date, parse_date_time, Date, DateTime};

#[test]
fn parses_dates_exactly() {
    assert_eq!(parse_date("2023-03-19"), Some(Date { year: 2023, month: 3, day: 19 }));
    assert_eq!(parse_date("0000-01-01"), Some(Date { year: 0, month: 1, day: 1 }));
    assert_eq!(parse_date("2000-02-29"), Some(Date { year: 2000, month: 2, day: 29 }));
    assert_eq!(parse_date("1900-02-29"), None);
    assert_eq!(parse_date("2023-00-10"), None);
    assert_eq!(parse_date("2023-01-00"), None);
    assert_eq!(parse_date("2023/01/01"), None);
    assert_eq!(parse_date("+2023-01-01"), None);
}

#[test]
fn parses_date_times_exactly() {
    assert_eq!(
        parse_date_time("2023-03-19 23:23"),
        Some(DateTime { date: Date { year: 2023, month: 3, day: 19 }, hour: 23, minute: 23 })
    );
    assert_eq!(
        parse_date_time("2023-03-19 00:00"),
        Some(DateTime { date: Date { year: 2023, month: 3, day: 19 }, hour: 0, minute: 0 })
    );
    assert_eq!(parse_date_time("2023-03-19 7:05"), None);
    assert_eq!(parse_date_time("2023-02-30 10:00"), None);
}

#[test]
fn formats_dates_with_padding() {
    assert_eq!(format_date(Date { year: 2023, month: 3, day: 9 }), "2023-03-09");
    assert_eq!(format_date(Date { year: 987, month: 12, day: 31 }), "0987-12-31");
    let t = DateTime { date: Date { year: 2023, month: 3, day: 19 }, hour: 7, minute: 5 };
    assert_eq!(format_date_time(t), "2023-03-19 07:05");
    assert_eq!(parse_date_time(&format_date_time(t)), Some(t));
}
