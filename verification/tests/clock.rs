use benchy::clock::{has_exceeded, seconds_between, NANOS_PER_SEC};

#[test]
fn seconds_between_rounds_down() {
    assert_eq!(seconds_between(0, 2 * NANOS_PER_SEC + 999_999_999), 2);
    assert_eq!(seconds_between(NANOS_PER_SEC, 4 * NANOS_PER_SEC), 3);
}

#[test]
fn seconds_between_is_zero_when_clock_ran_backwards() {
    assert_eq!(seconds_between(5 * NANOS_PER_SEC, NANOS_PER_SEC), 0);
}

#[test]
fn has_exceeded_is_strict() {
    assert!(!has_exceeded(0, 5 * NANOS_PER_SEC, 5));
    assert!(has_exceeded(0, 5 * NANOS_PER_SEC + 1, 5));
    assert!(!has_exceeded(10 * NANOS_PER_SEC, 0, 5));
}

#[test]
fn has_exceeded_handles_the_largest_limit() {
    assert!(!has_exceeded(0, u64::MAX, u64::MAX));
    assert!(has_exceeded(0, 1, 0));
}
