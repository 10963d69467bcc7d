use circus_simulation::deterministic::time::duration_from_nanos;
use circus_simulation::deterministic::time::nanos_of;
use circus_simulation::deterministic::time::DeterministicTime;
use circus_simulation::deterministic::time::MAX_DURATION_NANOS;
use std::ops::Add;
use std::time::Duration;
use std::time::Instant;

#[test]
fn time_deterministic_random() {
    let mut time = DeterministicTime::default();
    let now = time.base();

    for i in 1..1000 {
        time.advance(Duration::from_secs(1));
        assert_eq!(now.add(Duration::from_secs(i)), time.now().unwrap());
        assert_eq!(time.base(), now);
    }

    // let the wall clock move on
    while Instant::now() == now {}
    time.reset();
    assert!(!time.base().eq(&now));
    assert_eq!(time.elapsed(), Duration::from_secs(0));
}

#[test]
fn a_new_clock_has_not_advanced() {
    let time = DeterministicTime::new();
    assert_eq!(time.elapsed(), Duration::ZERO);
    assert_eq!(time.now(), Some(time.base()));
}

#[test]
fn advance_adds_up() {
    let mut time = DeterministicTime::new();
    time.advance(Duration::from_millis(817));
    time.advance(Duration::new(3, 999_999_999));
    assert_eq!(time.elapsed(), Duration::new(4, 816_999_999));
    let copy = time.clone();
    assert_eq!(copy.elapsed(), time.elapsed());
    assert_eq!(copy.base(), time.base());
}

#[test]
fn can_advance_tells_the_limit() {
    let mut time = DeterministicTime::new();
    assert!(time.can_advance(Duration::MAX));
    time.advance(Duration::from_nanos(1));
    assert!(!time.can_advance(Duration::MAX));
    assert!(time.can_advance(Duration::MAX - Duration::from_nanos(1)));
    time.advance(Duration::MAX - Duration::from_nanos(1));
    assert_eq!(time.elapsed(), Duration::MAX);
    assert!(time.can_advance(Duration::ZERO));
}

#[test]
fn nanos_round_trip() {
    assert_eq!(nanos_of(&Duration::new(2, 5)), 2_000_000_005);
    assert_eq!(nanos_of(&Duration::MAX), MAX_DURATION_NANOS);
    assert_eq!(duration_from_nanos(2_000_000_005), Duration::new(2, 5));
    assert_eq!(duration_from_nanos(MAX_DURATION_NANOS), Duration::MAX);
    assert_eq!(duration_from_nanos(0), Duration::ZERO);
}

#[test]
fn rebase_sets_the_base_and_clears_the_elapsed_time() {
    let mut time = DeterministicTime::new();
    time.advance(Duration::from_secs(5));
    let later = time.base() + Duration::from_secs(1000);
    time.rebase(later);
    assert_eq!(time.base(), later);
    assert_eq!(time.elapsed(), Duration::ZERO);
    assert_eq!(time.now(), Some(later));
}

#[test]
fn a_clock_counts_from_the_base_it_was_given() {
    let base = Instant::now();
    let mut time = DeterministicTime::starting_at(base);
    assert_eq!(time.base(), base);
    assert_eq!(time.elapsed(), Duration::ZERO);
    time.advance(Duration::from_millis(817));
    assert_eq!(time.now(), Some(base + Duration::from_millis(817)));
}
