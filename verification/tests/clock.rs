use embedded_alarm_clock::clock::{format_time_hh_mm, next_display_time, seconds_left_to_a_full_minute};

#[test]
fn formats_with_leading_zeros() {
    assert_eq!(format_time_hh_mm(7, 5), "07:05");
    assert_eq!(format_time_hh_mm(0, 0), "00:00");
    assert_eq!(format_time_hh_mm(23, 59), "23:59");
    assert_eq!(format_time_hh_mm(12, 30), format!("{:02}:{:02}", 12, 30));
}

#[test]
fn sleeps_until_just_past_the_minute() {
    assert_eq!(seconds_left_to_a_full_minute(0), 61);
    assert_eq!(seconds_left_to_a_full_minute(30), 31);
    assert_eq!(seconds_left_to_a_full_minute(59), 2);
}

#[test]
fn next_display_time_adds_a_minute_and_wraps() {
    assert_eq!(next_display_time(7, 5, 0), (7, 6, 0));
    assert_eq!(next_display_time(7, 59, 30), (8, 0, 30));
    assert_eq!(next_display_time(23, 59, 59), (0, 0, 59));
    assert_eq!(next_display_time(23, 59, 0), (0, 0, 0));
}

#[test]
fn kth_display_update_is_k_minutes_later() {
    let start: (u32, u32, u32) = (22, 30, 15);
    let start_secs = start.0 * 3600 + start.1 * 60 + start.2;
    let mut t = start;
    for k in 1..=3000u32 {
        t = next_display_time(t.0, t.1, t.2);
        let secs = t.0 * 3600 + t.1 * 60 + t.2;
        assert_eq!(secs, (start_secs + 60 * k) % 86400);
    }
}
