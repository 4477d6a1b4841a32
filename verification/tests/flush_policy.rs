use embedded_alarm_clock::flush_policy::{FlushKind, FlushPolicy, PARTIAL_FLUSH_LIMIT};

#[test]
fn quick_flushes_until_limit_then_full() {
    let mut policy = FlushPolicy::new();
    for i in 0..PARTIAL_FLUSH_LIMIT {
        assert_eq!(policy.partial_flush_counter(), i);
        assert!(!policy.partial_flush_limit_reached());
        assert_eq!(policy.flush(), FlushKind::Quick);
    }
    assert!(policy.partial_flush_limit_reached());
    assert_eq!(policy.flush(), FlushKind::Full);
    assert_eq!(policy.partial_flush_counter(), 0);
    assert_eq!(policy.flush(), FlushKind::Quick);
}

#[test]
fn every_32nd_flush_is_full() {
    let mut policy = FlushPolicy::new();
    let kinds: Vec<FlushKind> = (0..96).map(|_| policy.flush()).collect();
    for (i, kind) in kinds.iter().enumerate() {
        let expected = if (i + 1) % 32 == 0 { FlushKind::Full } else { FlushKind::Quick };
        assert_eq!(*kind, expected);
    }
}

#[test]
fn recorded_full_flush_resets_counter() {
    let mut policy = FlushPolicy::new();
    for _ in 0..10 {
        policy.flush();
    }
    assert_eq!(policy.partial_flush_counter(), 10);
    policy.flush_full();
    assert_eq!(policy.partial_flush_counter(), 0);
}
