use embedded_alarm_clock::alarm_table::{AlarmTable, AlarmTime, ALARMS_MAX_LENGTH, TABLE_SLOTS};
use embedded_alarm_clock::date_time::DateTime;

fn alarm(weekday: u8, hour: u8, minute: u8) -> AlarmTime {
    AlarmTime { weekday, hour, minute }
}

#[test]
fn alarm_time_validity_bounds() {
    assert!(alarm(0, 0, 0).is_valid());
    assert!(alarm(6, 23, 59).is_valid());
    assert!(!alarm(7, 0, 0).is_valid());
    assert!(!alarm(0, 24, 0).is_valid());
    assert!(!alarm(0, 0, 60).is_valid());
}

#[test]
fn alarm_time_zeroed_and_default() {
    assert_eq!(AlarmTime::zeroed(), alarm(0, 0, 0));
    assert_eq!(AlarmTime::default(), AlarmTime::zeroed());
}

#[test]
fn new_table_is_empty_and_not_consistent() {
    let table = AlarmTable::new();
    // The stored checksum is 0, while the CRC of the empty table is 0xB61A.
    assert!(!table.is_consistent());
    assert!(!table.contains(&AlarmTime::zeroed()));
    assert!(table.table.iter().all(|a| *a == AlarmTime::zeroed()));
}

#[test]
fn clear_makes_table_consistent_and_empty() {
    let mut table = AlarmTable::new();
    table.clear();
    assert!(table.is_consistent());
    assert!(!table.contains(&AlarmTime::zeroed()));
}

#[test]
fn pushed_alarm_is_contained_and_table_stays_consistent() {
    let mut table = AlarmTable::new();
    table.clear();
    assert_eq!(table.push_alarm(alarm(2, 7, 30)), Some(()));
    assert!(table.is_consistent());
    assert!(table.contains(&alarm(2, 7, 30)));
    assert!(!table.contains(&alarm(2, 7, 31)));
    assert_eq!(table.push_alarm(alarm(4, 6, 0)), Some(()));
    assert!(table.is_consistent());
    assert!(table.contains(&alarm(2, 7, 30)));
    assert!(table.contains(&alarm(4, 6, 0)));
}

#[test]
fn push_repairs_a_bad_checksum() {
    // A fresh table holds checksum 0 and is inconsistent; a push recomputes it.
    let mut table = AlarmTable::new();
    assert_eq!(table.push_alarm(alarm(1, 1, 1)), Some(()));
    assert!(table.is_consistent());
}

#[test]
fn full_table_refuses_push() {
    let mut table = AlarmTable::new();
    table.clear();
    for i in 0..ALARMS_MAX_LENGTH {
        assert_eq!(table.push_alarm(alarm(i % 7, i, i)), Some(()));
    }
    assert!(table.is_consistent());
    assert_eq!(table.push_alarm(alarm(0, 12, 0)), None);
    assert!(table.is_consistent());
    assert!(!table.contains(&alarm(0, 12, 0)));
    assert!(table.contains(&alarm(15 % 7, 15, 15)));
}

#[test]
fn invalid_alarm_makes_table_inconsistent() {
    let mut table = AlarmTable::new();
    table.clear();
    assert_eq!(table.push_alarm(alarm(7, 0, 0)), Some(()));
    assert!(!table.is_consistent());
    assert!(table.contains(&alarm(7, 0, 0)));
}

#[test]
fn tampering_with_a_slot_breaks_the_checksum() {
    let mut table = AlarmTable::new();
    table.clear();
    assert_eq!(table.push_alarm(alarm(3, 8, 15)), Some(()));
    table.table[0].minute = 16;
    assert!(!table.is_consistent());
    // Slots beyond the length are covered by the checksum too.
    let mut other = AlarmTable::new();
    other.clear();
    other.table[TABLE_SLOTS - 1].hour = 5;
    assert!(!other.is_consistent());
}

#[test]
fn clear_keeps_slots_but_forgets_alarms() {
    let mut table = AlarmTable::new();
    table.clear();
    assert_eq!(table.push_alarm(alarm(5, 9, 45)), Some(()));
    table.clear();
    assert!(table.is_consistent());
    assert!(!table.contains(&alarm(5, 9, 45)));
    assert_eq!(table.table[0], alarm(5, 9, 45));
}

#[test]
fn checksum_input_layout() {
    let mut table = AlarmTable::new();
    table.clear();
    assert_eq!(table.push_alarm(alarm(1, 2, 3)), Some(()));
    let bytes = table.checksum_input();
    assert_eq!(bytes.len(), 1 + 3 * TABLE_SLOTS);
    assert_eq!(&bytes[..4], &[1, 1, 2, 3]);
    assert!(bytes[4..].iter().all(|b| *b == 0));
}

#[test]
fn checksum_is_crc16_ibm_sdlc_of_input() {
    let crc = crc::Crc::<u16>::new(&crc::CRC_16_IBM_SDLC);
    assert_eq!(crc.checksum(b"123456789"), 0x906E);
    let table = AlarmTable::new();
    assert_eq!(crc.checksum(&table.checksum_input()), 0xB61A);
}

#[test]
fn contains_date_time_matches_weekday_hour_minute() {
    let mut table = AlarmTable::new();
    table.clear();
    // 2024-03-15 is a Friday (weekday 4).
    assert_eq!(table.push_alarm(alarm(4, 6, 30)), Some(()));
    let hit = DateTime::new(2024, 3, 15, 6, 30, 42).unwrap();
    let other_day = DateTime::new(2024, 3, 14, 6, 30, 0).unwrap();
    let other_minute = DateTime::new(2024, 3, 22, 6, 31, 0).unwrap();
    let next_week = DateTime::new(2024, 3, 22, 6, 30, 0).unwrap();
    assert!(table.contains_date_time(&hit));
    assert!(!table.contains_date_time(&other_day));
    assert!(!table.contains_date_time(&other_minute));
    assert!(table.contains_date_time(&next_week));
}

#[test]
fn alarm_time_from_date_time() {
    let dt = DateTime::new(2000, 2, 29, 23, 59, 0).unwrap();
    assert_eq!(AlarmTime::from(dt), alarm(1, 23, 59));
    assert_eq!(AlarmTime::from(&dt), alarm(1, 23, 59));
}
