use circus_simulation::buggify::call_site;
use circus_simulation::buggify::disable_buggify;
use circus_simulation::buggify::enable_buggify;
use circus_simulation::buggify::handle_buggify;
use circus_simulation::buggify::is_buggify_enabled;
use circus_simulation::buggify::Buggifier;
use circus_simulation::deterministic::random::DeterministicRandom;

const SITE: &str = "tests/buggify:loop";
const OTHER_SITE: &str = "tests/buggify:other";

#[test]
fn test_buggifier() {
    let mut b = Buggifier::default();
    assert!(!b.is_buggify_enabled());
    assert!(
        !b.buggify_with_prob(OTHER_SITE.to_string(), 1, 1),
        "should not buggified"
    );
    assert_eq!(b.fired_count(), 0);

    let random = DeterministicRandom::new_with_seed(42);
    b.enable_buggify(random);
    assert!(b.is_buggify_enabled(), "should be activated");

    for i in 0..100 {
        let result = i == 8;
        assert_eq!(
            b.buggify(SITE.to_string()),
            result,
            "iteration {} should have been {}",
            i,
            result
        );
    }

    assert!(b.is_buggify_enabled());
    assert_eq!(b.fired_count(), 1);
    assert!(b.has_fired(SITE));

    b.disable_buggify();
    assert!(
        !b.buggify_with_prob(OTHER_SITE.to_string(), 1, 1),
        "should not buggified"
    );
}

#[test]
fn test_static_buggify() {
    let mut instance = Buggifier::default();

    // reset any previous test
    disable_buggify(&mut instance);

    assert!(!is_buggify_enabled(&instance));
    assert!(
        !handle_buggify(&mut instance, OTHER_SITE.to_string(), 1, 1),
        "should not buggified"
    );

    enable_buggify(&mut instance, DeterministicRandom::new_with_seed(42));
    assert!(is_buggify_enabled(&instance), "should be activated");

    for i in 0..100 {
        let result = i == 8;
        assert_eq!(
            handle_buggify(&mut instance, SITE.to_string(), 1, 20),
            result,
            "iteration {} should have been {}",
            i,
            result
        );
    }
    assert!(is_buggify_enabled(&instance));
    assert_eq!(instance.fired_count(), 1);
    assert!(instance.has_fired(SITE));

    instance.disable_buggify();
    assert!(
        !instance.buggify_with_prob(OTHER_SITE.to_string(), 1, 1),
        "should not buggified"
    );
}

#[test]
fn buggify() {
    let mut b = Buggifier::default();
    assert!(!b.is_buggify_enabled());
    assert!(
        !b.buggify_with_prob(OTHER_SITE.to_string(), 1, 1),
        "should not buggified"
    );
    assert_eq!(b.fired_count(), 0);

    let random = DeterministicRandom::new_with_seed(42);
    b.enable_buggify(random);
    assert!(b.is_buggify_enabled(), "should be activated");

    for i in 0..100 {
        let result = if i == 8 { true } else { false };
        assert_eq!(
            b.buggify(SITE.to_string()),
            result,
            "iteration {} should have been {}",
            i,
            result
        );
    }

    assert!(b.is_buggify_enabled());
    assert_eq!(b.fired_count(), 1);
    assert!(b.has_fired(SITE));
    assert!(!b.has_fired(OTHER_SITE));

    b.disable_buggify();
    assert!(
        !b.buggify_with_prob(OTHER_SITE.to_string(), 1, 1),
        "should not buggified"
    );
}

#[test]
fn static_buggify() {
    let mut instance = Buggifier::default();
    assert!(!instance.is_buggify_enabled());
    assert!(
        !instance.buggify_with_prob(OTHER_SITE.to_string(), 1, 1),
        "should not buggified"
    );

    let random = DeterministicRandom::new_with_seed(42);
    instance.enable_buggify(random);
    assert!(instance.is_buggify_enabled(), "should be activated");

    for i in 0..100 {
        let result = if i == 8 { true } else { false };
        assert_eq!(
            instance.buggify(SITE.to_string()),
            result,
            "iteration {} should have been {}",
            i,
            result
        );
    }
    assert!(instance.is_buggify_enabled());
    assert_eq!(instance.fired_count(), 1);
    assert!(instance.has_fired(SITE));

    instance.disable_buggify();
    assert!(
        !instance.buggify_with_prob(OTHER_SITE.to_string(), 1, 1),
        "should not buggified"
    );
}

#[test]
fn test_macro() {
    let mut instance = Buggifier::default();
    assert!(!is_buggify_enabled(&instance));
    for _ in 0..9999 {
        assert!(
            !handle_buggify(&mut instance, SITE.to_string(), 1, 20),
            "should not buggified"
        );
    }

    let random = DeterministicRandom::new_with_seed(42);
    enable_buggify(&mut instance, random);

    assert!(is_buggify_enabled(&instance), "should be activated");

    for i in 0..100 {
        let result = if i == 8 { true } else { false };
        assert_eq!(
            handle_buggify(&mut instance, SITE.to_string(), 1, 20),
            result,
            "{} should have been {}",
            i,
            result
        );
    }

    assert!(
        handle_buggify(&mut instance, OTHER_SITE.to_string(), 1, 1),
        "probility of 1.0 should always be fired"
    )
}

#[test]
fn disabled_buggify_never_fires() {
    let mut b = Buggifier::default();
    for _ in 0..10_000 {
        assert!(!b.buggify_with_prob(SITE.to_string(), 1, 1));
    }
    assert_eq!(b.fired_count(), 0);
}

#[test]
fn a_call_site_fires_once_per_enable() {
    let mut b = Buggifier::new(DeterministicRandom::new_with_seed(7));
    assert!(b.buggify_with_prob(SITE.to_string(), 1, 1));
    for _ in 0..100 {
        assert!(!b.buggify_with_prob(SITE.to_string(), 1, 1));
    }
    // another call-site is not affected
    assert!(b.buggify_with_prob(OTHER_SITE.to_string(), 1, 1));
    assert_eq!(b.fired_count(), 2);
}

#[test]
fn enabling_again_keeps_fired_sites_and_disabling_clears_them() {
    let mut b = Buggifier::new(DeterministicRandom::new_with_seed(7));
    assert!(b.buggify_with_prob(SITE.to_string(), 1, 1));
    b.enable_buggify(DeterministicRandom::new_with_seed(8));
    assert!(b.has_fired(SITE));
    assert!(!b.buggify_with_prob(SITE.to_string(), 1, 1));

    b.disable_buggify();
    assert!(!b.is_buggify_enabled());
    assert!(!b.has_fired(SITE));
    assert_eq!(b.fired_count(), 0);

    b.enable_buggify(DeterministicRandom::new_with_seed(9));
    assert!(b.buggify_with_prob(SITE.to_string(), 1, 1));
}

#[test]
fn probability_zero_never_fires() {
    let mut b = Buggifier::new(DeterministicRandom::new_with_seed(42));
    for _ in 0..1000 {
        assert!(!b.buggify_with_prob(SITE.to_string(), 0, 1));
    }
    assert!(b.should_draw(SITE));
}

#[test]
fn record_applies_a_draw() {
    let mut b = Buggifier::new(DeterministicRandom::new_with_seed(42));
    assert!(b.should_draw(SITE));
    assert!(!b.record(SITE.to_string(), false));
    assert!(b.should_draw(SITE));
    assert!(b.record(SITE.to_string(), true));
    assert!(!b.should_draw(SITE));
    assert!(!b.record(SITE.to_string(), true));
    assert_eq!(b.fired_count(), 1);
}

#[test]
fn call_sites_are_named_by_file_and_line() {
    assert_eq!(call_site("src/a.rs", 42), "src/a.rs:42");
    assert_eq!(call_site("src/a.rs", 0), "src/a.rs:0");
    assert_eq!(call_site("", 7), ":7");
    assert_eq!(call_site("b", 100), "b:100");
    assert_eq!(call_site("b", 1090), "b:1090");
    assert_eq!(call_site("b", u32::MAX), "b:4294967295");
}

#[test]
fn a_ratio_that_is_none_is_not_read_where_the_source_is_not_asked() {
    let mut off = Buggifier::default();
    assert!(!off.buggify_with_prob(SITE.to_string(), 5, 0));
    let mut on = Buggifier::new(DeterministicRandom::new_with_seed(3));
    assert!(on.buggify_with_prob(SITE.to_string(), 1, 1));
    // the call-site has fired: the ratio is not read any more
    assert!(!on.buggify_with_prob(SITE.to_string(), 7, 2));
    assert!(!on.handle_buggify(SITE.to_string(), 1, 0));
}
