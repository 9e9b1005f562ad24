use tpt_certus::state::StateSnapshot;

#[test]
fn snapshot_equality() {
    let hash = [0xAA; 32];
    let s1 = StateSnapshot::new(1, hash);
    let s2 = StateSnapshot::new(1, hash);
    assert_eq!(s1, s2);
}

#[test]
fn snapshot_sequence_ordering() {
    let h = [0u8; 32];
    let s1 = StateSnapshot::new(0, h);
    let s2 = StateSnapshot::new(1, h);
    assert!(s1.sequence < s2.sequence);
}

#[test]
fn snapshot_keeps_sequence_and_hash() {
    let mut hash = [0u8; 32];
    hash[31] = 7;
    let s = StateSnapshot::new(42, hash);
    assert_eq!(s.sequence, 42);
    assert_eq!(s.hash[31], 7);
    assert_ne!(s, StateSnapshot::new(42, [0u8; 32]));
}
