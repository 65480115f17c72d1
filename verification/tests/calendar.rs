use chrono::{DateTime, Datelike, FixedOffset, NaiveDate, Utc};
use fake::faker::chrono::raw::DateTime as FakeDateTime;
use fake::locales::EN;
use fake::Fake;
use seeder::calendar::render_date;
use seeder::json::{date_value, Value};

fn tokyo_date(stamp: &str) -> Value {
    match stamp.parse::<DateTime<Utc>>() {
        Ok(instant) => {
            let zone = FixedOffset::east_opt(9 * 3600).unwrap();
            Value::Text(instant.with_timezone(&zone).format("%Y-%m-%d").to_string())
        }
        Err(_) => Value::Null,
    }
}

#[test]
fn dates_are_written_as_the_calendar_formats_them() {
    let dates = [
        (2024, 2, 29),
        (1970, 1, 1),
        (1, 1, 1),
        (0, 12, 31),
        (999, 9, 9),
        (1000, 10, 10),
        (9999, 12, 31),
        (10000, 1, 1),
        (99999, 11, 30),
        (262142, 12, 31),
        (-1, 1, 1),
        (-999, 6, 15),
        (-1000, 6, 15),
        (-9999, 3, 3),
        (-10000, 3, 3),
        (-262143, 1, 1),
    ];
    for (year, month, day) in dates {
        let date = NaiveDate::from_ymd_opt(year, month, day).unwrap();
        assert_eq!(render_date(year, month, day), date.format("%Y-%m-%d").to_string());
    }
}

#[test]
fn every_day_of_a_leap_year_is_written_as_the_calendar_formats_it() {
    let mut date = NaiveDate::from_ymd_opt(2024, 1, 1).unwrap();
    let mut days = 0;
    while let Some(next) = date.succ_opt() {
        assert_eq!(
            render_date(date.year(), date.month(), date.day()),
            date.format("%Y-%m-%d").to_string()
        );
        days += 1;
        if next.year() != 2024 {
            break;
        }
        date = next;
    }
    assert_eq!(days, 366);
}

#[test]
fn instants_fall_on_the_date_of_the_clock_nine_hours_ahead() {
    let stamps = [
        "2024-02-29T20:00:00Z",
        "2024-02-29T14:59:59.999999999Z",
        "2024-12-31T15:00:00Z",
        "1969-12-31T23:59:59Z",
        "1677-09-21T00:12:44+00:00",
        "2262-04-11T23:47:16.854775807+00:00",
        "0000-01-01T00:00:00Z",
        "9999-12-31T23:59:59Z",
        "+12345-06-07T08:09:10Z",
        "-0044-03-15T12:00:00Z",
        "2012-12-12 12:12:12+0000",
        "2012-  12-12T12:  12:12Z",
        "2012-12-12T12:12:12 UTC",
        "2012-12-12",
        "12:12:12Z",
        "2012-02-30T00:00:00Z",
        "2012-12-12T12:12:12",
        "",
        "now",
    ];
    let mut dates = 0;
    for stamp in stamps {
        let expected = tokyo_date(stamp);
        if expected != Value::Null {
            dates += 1;
        }
        assert_eq!(date_value(stamp), expected, "{:?}", stamp);
    }
    assert!(dates >= 10);
}

#[test]
fn drawn_instants_fall_on_the_date_of_the_clock_nine_hours_ahead() {
    for _ in 0..200 {
        let stamp = FakeDateTime(EN).fake::<String>();
        let expected = tokyo_date(&stamp);
        assert!(matches!(expected, Value::Text(_)), "{:?}", stamp);
        assert_eq!(date_value(&stamp), expected, "{:?}", stamp);
    }
}
