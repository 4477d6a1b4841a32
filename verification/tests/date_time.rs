use embedded_alarm_clock::date_time::DateTime;

#[test]
fn date_time_rejects_impossible_dates() {
    assert!(DateTime::new(2023, 2, 29, 0, 0, 0).is_none());
    assert!(DateTime::new(2024, 2, 29, 0, 0, 0).is_some());
    assert!(DateTime::new(1900, 2, 29, 0, 0, 0).is_none());
    assert!(DateTime::new(2000, 2, 29, 0, 0, 0).is_some());
    assert!(DateTime::new(2023, 4, 31, 0, 0, 0).is_none());
    assert!(DateTime::new(2023, 0, 1, 0, 0, 0).is_none());
    assert!(DateTime::new(2023, 13, 1, 0, 0, 0).is_none());
    assert!(DateTime::new(2023, 1, 0, 0, 0, 0).is_none());
    assert!(DateTime::new(400000, 1, 1, 0, 0, 0).is_none());
    assert!(DateTime::new(-400000, 1, 1, 0, 0, 0).is_none());
    assert!(DateTime::new(262142, 12, 31, 0, 0, 0).is_some());
    assert!(DateTime::new(262143, 1, 1, 0, 0, 0).is_none());
    assert!(DateTime::new(-262143, 1, 1, 0, 0, 0).is_some());
    assert!(DateTime::new(-262144, 12, 31, 0, 0, 0).is_none());
}

#[test]
fn date_time_rejects_impossible_times() {
    assert!(DateTime::new(2024, 1, 1, 24, 0, 0).is_none());
    assert!(DateTime::new(2024, 1, 1, 0, 60, 0).is_none());
    assert!(DateTime::new(2024, 1, 1, 0, 0, 60).is_none());
    assert!(DateTime::new(2024, 1, 1, 23, 59, 59).is_some());
}

#[test]
fn date_time_keeps_its_fields() {
    let dt = DateTime::new(2031, 7, 4, 13, 5, 9).unwrap();
    assert_eq!(dt.year(), 2031);
    assert_eq!(dt.month(), 7);
    assert_eq!(dt.day(), 4);
    assert_eq!(dt.hour(), 13);
    assert_eq!(dt.minute(), 5);
    assert_eq!(dt.second(), 9);
}

#[test]
fn weekdays_count_from_monday() {
    let wd = |y: i32, m: u32, d: u32| DateTime::new(y, m, d, 0, 0, 0).unwrap().weekday();
    assert_eq!(wd(2024, 1, 1), 0);
    assert_eq!(wd(2000, 2, 29), 1);
    assert_eq!(wd(1970, 1, 1), 3);
    assert_eq!(wd(2025, 12, 25), 3);
    assert_eq!(wd(2024, 3, 16), 5);
    assert_eq!(wd(2024, 3, 17), 6);
    assert_eq!(wd(1, 1, 1), 0);
    assert_eq!(wd(0, 1, 1), 5);
}
