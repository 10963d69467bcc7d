use circus_simulation::seed::parse_seed;
use circus_simulation::seed::with_random_seed;
use circus_simulation::seed::with_seed as fixed_seed;
use circus_simulation::seed::Seed;
use circus_simulation::seed::SeedError;

#[test]
fn test_random_seed() {
    let seed: u64 = with_random_seed().resolve(None, 1234).unwrap();
    println!("{}", seed);
    assert_eq!(seed, 1234);
}

#[test]
fn with_seed() {
    let seed: u64 = fixed_seed(42).resolve(Some("7"), 1234).unwrap();
    assert_eq!(42, seed);
}

#[test]
fn test_seed() {
    let seed = Seed { value: None };
    println!("{:?}", seed);
    assert_eq!(seed, with_random_seed());
}

#[test]
fn a_configured_seed_is_used_when_the_test_leaves_it_open() {
    assert_eq!(with_random_seed().resolve(Some("42"), 1234), Ok(42));
    assert_eq!(
        with_random_seed().resolve(Some("18446744073709551615"), 1234),
        Ok(u64::MAX)
    );
}

#[test]
fn a_configured_text_that_is_no_seed_is_an_error() {
    for text in ["", "+", "-1", "4 2", " 42", "42 ", "0x2a", "forty-two", "18446744073709551616", "4_2"] {
        assert_eq!(
            with_random_seed().resolve(Some(text), 1234),
            Err(SeedError::Unparsable),
            "{:?}",
            text
        );
        assert_eq!(parse_seed(text), None);
        assert_eq!(text.parse::<u64>().ok(), None);
    }
}

#[test]
fn seeds_are_read_as_the_standard_library_reads_them() {
    for text in ["0", "42", "+42", "007", "18446744073709551615", "+0", "99999999999999999999", "٤٢", "1+1"] {
        assert_eq!(parse_seed(text), text.parse::<u64>().ok(), "{:?}", text);
    }
    assert_eq!(parse_seed("42"), Some(42));
    assert_eq!(parse_seed("+42"), Some(42));
    assert_eq!(parse_seed("007"), Some(7));
}

#[test]
fn a_fixed_seed_is_read_from_its_text() {
    assert_eq!(Seed::parse("42"), Some(Seed { value: Some(42) }));
    assert_eq!(Seed::parse("x"), None);
}
