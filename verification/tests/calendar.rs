use hearth_web::calendar;

#[test]
fn days_and_dates() {
    assert_eq!(calendar::civil_from_days(0), (1970, 1, 1));
    assert_eq!(calendar::civil_from_days(-1), (1969, 12, 31));
    assert_eq!(calendar::civil_from_days(19_782), (2024, 2, 29));
    assert_eq!(calendar::civil_from_days(11_016), (2000, 2, 29));
    assert_eq!(calendar::civil_from_days(-719_468), (0, 3, 1));
    assert_eq!(calendar::civil_from_days(-719_528), (0, 1, 1));
}

#[test]
fn consecutive_days_are_consecutive_dates() {
    let mut last = calendar::civil_from_days(-1000);
    for z in -999..2000i64 {
        let d = calendar::civil_from_days(z);
        assert!(last < d);
        assert!(d.2 == 1 || (d.0, d.1, d.2 - 1) == last);
        last = d;
    }
}

#[test]
fn four_centuries_repeat() {
    let a = calendar::civil_from_days(12_345);
    let b = calendar::civil_from_days(12_345 + 146_097);
    assert_eq!((a.0 + 400, a.1, a.2), b);
}

#[test]
fn years_have_their_length() {
    let start = |y: i64| {
        let mut z = (y - 1970) * 365;
        while calendar::civil_from_days(z) < (y, 1, 1) {
            z += 1;
        }
        z
    };
    assert_eq!(start(2001) - start(2000), 366);
    assert_eq!(start(1901) - start(1900), 365);
    assert_eq!(start(2023) - start(2022), 365);
}

#[test]
fn timestamps() {
    assert_eq!(calendar::format_ts(0), "1970-01-01 00:00 UTC");
    assert_eq!(calendar::format_ts(1_700_000_000_000_000), "2023-11-14 22:13 UTC");
    assert_eq!(calendar::format_ts_admin(1_700_000_000_000_000), "2023-11-14 22:13 UTC");
    assert_eq!(calendar::format_ts(-60_000_000), "1969-12-31 23:59 UTC");
    assert_eq!(calendar::format_ts(-1), "1970-01-01 00:00 UTC");
}

#[test]
fn dates_are_read() {
    assert_eq!(calendar::parse_date_to_timestamp("1970-01-01"), Some(0));
    assert_eq!(calendar::parse_date_to_timestamp("1970-01-02"), Some(calendar::DAY_MICROS));
    assert_eq!(calendar::parse_date_to_timestamp("2024-02-29"), Some(19_782 * 86_400_000_000));
    assert_eq!(calendar::parse_date_to_timestamp("1969-12-31"), Some(-86_400_000_000));
    for bad in ["", "2024", "2024-01", "2024-13-01", "2024-00-01", "2024-01-32", "2024-01-00", "a-b-c", "2024-01-01-01"] {
        assert!(calendar::date_in_range(bad));
        assert_eq!(calendar::parse_date_to_timestamp(bad), None, "{:?}", bad);
    }
    assert!(!calendar::date_in_range("9223372036854775-01-01"));
}

#[test]
fn reading_undoes_formatting() {
    for z in [0i64, 59, 365, 11_016, 19_782, 20_000] {
        let shown = calendar::format_ts(z * 86_400_000_000);
        assert_eq!(calendar::parse_date_to_timestamp(&shown[..10]), Some(z * 86_400_000_000));
    }
}

#[test]
fn shown_dates_are_read_as_the_start_of_their_day() {
    for day in [-719_528i64, -1, 0, 11_016, 19_782, 2_932_896] {
        for micros in [0i64, 1_000_000, 86_399_000_000] {
            let shown = calendar::format_ts(day * 86_400_000_000 + micros);
            assert_eq!(calendar::parse_date_to_timestamp(&shown[..10]), Some(day * 86_400_000_000));
        }
    }
}
