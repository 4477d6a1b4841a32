use embedded_alarm_clock::buzzer::{BuzzAction, BuzzCycle};

#[test]
fn toggles_until_deadline() {
    let mut cycle = BuzzCycle::new();
    for _ in 0..3 {
        assert_eq!(cycle.step(true, false), BuzzAction::SetHighAndWait);
        assert_eq!(cycle.step(true, false), BuzzAction::SetLow);
        assert_eq!(cycle.step(true, false), BuzzAction::Wait);
    }
    assert_eq!(cycle.step(false, false), BuzzAction::Stop);
    assert!(cycle.is_stopped());
    assert_eq!(cycle.step(true, false), BuzzAction::Idle);
}

#[test]
fn button_stops_at_top_of_loop() {
    let mut cycle = BuzzCycle::new();
    assert_eq!(cycle.step(true, true), BuzzAction::Stop);
    assert!(cycle.is_stopped());
}

#[test]
fn button_stops_after_pin_goes_low() {
    let mut cycle = BuzzCycle::new();
    assert_eq!(cycle.step(true, false), BuzzAction::SetHighAndWait);
    // The button is not read while the pin is high.
    assert_eq!(cycle.step(true, true), BuzzAction::SetLow);
    assert_eq!(cycle.step(true, true), BuzzAction::Stop);
    assert!(cycle.is_stopped());
}

#[test]
fn deadline_is_only_checked_at_top_of_loop() {
    let mut cycle = BuzzCycle::new();
    assert_eq!(cycle.step(true, false), BuzzAction::SetHighAndWait);
    assert_eq!(cycle.step(false, false), BuzzAction::SetLow);
    assert_eq!(cycle.step(false, false), BuzzAction::Wait);
    assert!(!cycle.is_stopped());
    assert_eq!(cycle.step(false, false), BuzzAction::Stop);
}

#[test]
fn pin_writes_are_high_low_pairs_then_low() {
    // Deadline passes after 4 checks; the button is pressed at step 10.
    let mut cycle = BuzzCycle::new();
    let mut writes: Vec<bool> = Vec::new();
    let mut checks = 0;
    for step in 0..20 {
        let before_end = checks < 4;
        let action = cycle.step(before_end, step == 10);
        match action {
            BuzzAction::SetHighAndWait => writes.push(true),
            BuzzAction::SetLow => writes.push(false),
            BuzzAction::Stop => writes.push(false),
            BuzzAction::Wait => checks += 1,
            BuzzAction::Idle => {}
        }
    }
    assert!(cycle.is_stopped());
    assert_eq!(writes.last(), Some(&false));
    let pairs = &writes[..writes.len() - 1];
    assert_eq!(pairs.len() % 2, 0);
    for pair in pairs.chunks(2) {
        assert_eq!(pair, &[true, false]);
    }
}
