use circus_simulation::deterministic::random::unit_of_bits;
use circus_simulation::deterministic::random::DeterministicRandom;
use circus_simulation::deterministic::random::UNIT_SCALE;

#[test]
fn random_deterministic_random() {
    for seed in 0..9999 {
        let mut a = DeterministicRandom::new_with_seed(seed);
        let mut b = DeterministicRandom::new_with_seed(seed);
        for range in vec![0..1u64, 0..42u64, 0..999u64] {
            for _ in 0..999 {
                let first: u64 = a.random_between(range.start, range.end);
                let second: u64 = b.random_between(range.start, range.end);
                assert_eq!(first, second);
                assert_eq!(a.random_01(), b.random_01());
                assert_eq!(a.random_boolean(1, 2), b.random_boolean(1, 2));
            }
        }
    }
}

#[test]
fn draws_stay_in_range() {
    let mut random = DeterministicRandom::new_with_seed(42);
    for _ in 0..10_000 {
        let value = random.random_between(300, 2000);
        assert!(300 <= value && value < 2000);
        assert!(random.random_01() < UNIT_SCALE);
    }
}

#[test]
fn first_latency_draw_of_seed_42() {
    let mut random = DeterministicRandom::new_with_seed(42);
    assert_eq!(random.random_between(300, 2000), 817);
}

#[test]
fn certain_and_impossible_booleans() {
    let mut random = DeterministicRandom::new_with_seed(1);
    for _ in 0..1000 {
        assert!(random.random_boolean(1, 1));
        assert!(random.random_boolean(20, 20));
        assert!(!random.random_boolean(0, 1));
    }
}

#[test]
fn different_seeds_differ() {
    let mut a = DeterministicRandom::new_with_seed(1);
    let mut b = DeterministicRandom::new_with_seed(2);
    let first: Vec<u64> = (0..16).map(|_| a.random_between(0, u64::MAX)).collect();
    let second: Vec<u64> = (0..16).map(|_| b.random_between(0, u64::MAX)).collect();
    assert_ne!(first, second);
}

#[test]
fn the_unit_is_the_upper_23_bits() {
    assert_eq!(unit_of_bits(0), 0);
    assert_eq!(unit_of_bits(0x1ff), 0);
    assert_eq!(unit_of_bits(0x200), 1);
    assert_eq!(unit_of_bits(0x8000_0000), 0x40_0000);
    assert_eq!(unit_of_bits(u32::MAX), UNIT_SCALE - 1);
    assert_eq!(unit_of_bits(0xdead_beef), 0xdead_beef >> 9);
}
