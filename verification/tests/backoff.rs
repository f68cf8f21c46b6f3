use annoirc::backoff::{next_delay, Backoff};

#[test]
fn first_attempt_is_immediate() {
    let mut backoff = Backoff::default();
    assert_eq!(backoff.next(), None);
}

#[test]
fn rapid_attempts_wait_the_minimum() {
    let mut backoff = Backoff::default();
    assert_eq!(backoff.next(), None);
    assert_eq!(backoff.next(), Some(10));
    assert_eq!(backoff.next(), Some(10));
}

#[test]
fn success_resets_the_sequence() {
    let mut backoff = Backoff::default();
    assert_eq!(backoff.next(), None);
    assert_eq!(backoff.next(), Some(10));
    backoff.success();
    assert_eq!(backoff.next(), None);
}

#[test]
fn delay_doubles_the_gap_up_to_the_maximum() {
    let second: u128 = 1_000_000_000;
    assert_eq!(next_delay(0, 10, 240), 10);
    assert_eq!(next_delay(5 * second, 10, 240), 10);
    assert_eq!(next_delay(7 * second + 500_000_000, 10, 240), 15);
    assert_eq!(next_delay(7 * second + 900_000_000, 10, 240), 15);
    assert_eq!(next_delay(60 * second, 10, 240), 120);
    assert_eq!(next_delay(120 * second, 10, 240), 240);
    assert_eq!(next_delay(300 * second, 10, 240), 240);
    assert_eq!(next_delay(480 * second, 10, 240), 240);
}

#[test]
fn long_idle_gap_starts_afresh() {
    let second: u128 = 1_000_000_000;
    assert_eq!(next_delay(480 * second + 1, 10, 240), 10);
    assert_eq!(next_delay(u128::MAX, 10, 240), 10);
}

#[test]
fn odd_bounds_are_halved_in_nanoseconds() {
    assert_eq!(next_delay(0, 5, 9), 5);
    assert_eq!(next_delay(4_500_000_000, 5, 9), 9);
    assert_eq!(next_delay(4_400_000_000, 5, 9), 8);
}
