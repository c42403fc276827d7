use ldap_users::time::Timestamp;

fn text(
    year: i32,
    month: u32,
    day: u32,
    hour: u32,
    minute: u32,
    second: u32,
    nanosecond: u32,
) -> String {
    Timestamp::new(year, month, day, hour, minute, second, nanosecond).unwrap().to_rfc3339()
}

#[test]
fn rfc3339_of_a_whole_second() {
    assert_eq!(text(2014, 7, 8, 9, 10, 11, 0), "2014-07-08T09:10:11+00:00");
    assert_eq!(text(1970, 1, 1, 0, 0, 0, 0), "1970-01-01T00:00:00+00:00");
    assert_eq!(text(1999, 12, 31, 23, 59, 59, 0), "1999-12-31T23:59:59+00:00");
    assert_eq!(text(0, 1, 1, 0, 0, 0, 0), "0000-01-01T00:00:00+00:00");
    assert_eq!(text(9999, 12, 31, 0, 0, 0, 0), "9999-12-31T00:00:00+00:00");
    assert_eq!(text(33, 3, 4, 5, 6, 7, 0), "0033-03-04T05:06:07+00:00");
}

#[test]
fn rfc3339_of_a_fraction() {
    assert_eq!(text(2018, 1, 26, 18, 30, 9, 453_000_000), "2018-01-26T18:30:09.453+00:00");
    assert_eq!(text(2018, 1, 26, 18, 30, 9, 453_829_000), "2018-01-26T18:30:09.453829+00:00");
    assert_eq!(text(2018, 1, 26, 18, 30, 9, 453_829_001), "2018-01-26T18:30:09.453829001+00:00");
    assert_eq!(text(2018, 1, 26, 18, 30, 9, 1), "2018-01-26T18:30:09.000000001+00:00");
    assert_eq!(text(2018, 1, 26, 18, 30, 9, 1_000), "2018-01-26T18:30:09.000001+00:00");
    assert_eq!(text(2018, 1, 26, 18, 30, 9, 1_000_000), "2018-01-26T18:30:09.001+00:00");
    assert_eq!(text(2018, 1, 26, 18, 30, 9, 120_000_000), "2018-01-26T18:30:09.120+00:00");
}

#[test]
fn rfc3339_of_a_leap_second() {
    assert_eq!(text(2016, 12, 31, 23, 59, 59, 1_000_000_000), "2016-12-31T23:59:60+00:00");
    assert_eq!(text(2016, 12, 31, 23, 59, 59, 1_500_000_000), "2016-12-31T23:59:60.500+00:00");
}

#[test]
fn rfc3339_of_a_year_out_of_four_digits() {
    assert_eq!(text(-1, 1, 1, 0, 0, 0, 0), "-0001-01-01T00:00:00+00:00");
    assert_eq!(text(-2024, 2, 29, 0, 0, 0, 0), "-2024-02-29T00:00:00+00:00");
    assert_eq!(text(10000, 1, 1, 0, 0, 0, 0), "+10000-01-01T00:00:00+00:00");
    assert_eq!(text(262142, 12, 31, 0, 0, 0, 0), "+262142-12-31T00:00:00+00:00");
    assert_eq!(text(-262143, 1, 1, 0, 0, 0, 0), "-262143-01-01T00:00:00+00:00");
}

#[test]
fn timestamp_holds_only_what_exists() {
    assert!(Timestamp::new(2023, 2, 28, 0, 0, 0, 0).is_some());
    assert!(Timestamp::new(2023, 2, 29, 0, 0, 0, 0).is_none());
    assert!(Timestamp::new(2024, 2, 29, 0, 0, 0, 0).is_some());
    assert!(Timestamp::new(1900, 2, 29, 0, 0, 0, 0).is_none());
    assert!(Timestamp::new(2000, 2, 29, 0, 0, 0, 0).is_some());
    assert!(Timestamp::new(-4, 2, 29, 0, 0, 0, 0).is_some());
    assert!(Timestamp::new(-100, 2, 29, 0, 0, 0, 0).is_none());
    assert!(Timestamp::new(2023, 4, 31, 0, 0, 0, 0).is_none());
    assert!(Timestamp::new(2023, 4, 30, 0, 0, 0, 0).is_some());
    assert!(Timestamp::new(2023, 0, 1, 0, 0, 0, 0).is_none());
    assert!(Timestamp::new(2023, 13, 1, 0, 0, 0, 0).is_none());
    assert!(Timestamp::new(2023, 1, 0, 0, 0, 0, 0).is_none());
    assert!(Timestamp::new(2023, 1, 32, 0, 0, 0, 0).is_none());
    assert!(Timestamp::new(2023, 1, 1, 24, 0, 0, 0).is_none());
    assert!(Timestamp::new(2023, 1, 1, 0, 60, 0, 0).is_none());
    assert!(Timestamp::new(2023, 1, 1, 0, 0, 60, 0).is_none());
    assert!(Timestamp::new(2023, 1, 1, 0, 0, 58, 1_000_000_000).is_none());
    assert!(Timestamp::new(2023, 1, 1, 0, 0, 59, 1_999_999_999).is_some());
    assert!(Timestamp::new(2023, 1, 1, 0, 0, 59, 2_000_000_000).is_none());
    assert!(Timestamp::new(262143, 1, 1, 0, 0, 0, 0).is_none());
    assert!(Timestamp::new(-262144, 1, 1, 0, 0, 0, 0).is_none());
}
