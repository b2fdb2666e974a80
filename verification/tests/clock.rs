use rabbit::clock::{now_secs, secs_or_zero};

#[test]
fn now_secs_reads_the_wall_clock() {
    let before = std::time::SystemTime::now()
        .duration_since(std::time::UNIX_EPOCH)
        .unwrap()
        .as_secs();
    let now = now_secs();
    let after = std::time::SystemTime::now()
        .duration_since(std::time::UNIX_EPOCH)
        .unwrap()
        .as_secs();
    assert!(before <= now && now <= after);
}

#[test]
fn clock_before_epoch_reads_zero() {
    assert_eq!(secs_or_zero(Ok(42)), 42);
    assert_eq!(secs_or_zero(Err(())), 0);
}
