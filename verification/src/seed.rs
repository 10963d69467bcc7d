//! Seeds for simulation tests.
//!
//! A test either fixes its seed or leaves it open. An open seed is taken
//! from the text configured under `DETERMINISTIC_SEED`, a base-10 unsigned
//! 64-bit integer, when there is one, and from the entropy of the system
//! otherwise. A configured text that is no such integer is an error.

use vstd::prelude::*;

verus! {

/// Whether `c` is a decimal digit.
pub open spec fn is_digit(c: char) -> bool {
    '0' <= c && c <= '9'
}

/// The number that the decimal digit `c` stands for.
pub open spec fn digit_value(c: char) -> nat {
    (c as u32 - '0' as u32) as nat
}

/// The number that the decimal digits `digits` stand for.
pub open spec fn decimal_value(digits: Seq<char>) -> nat
    decreases digits.len(),
{
    if digits.len() == 0 {
        0
    } else {
        decimal_value(digits.drop_last()) * 10 + digit_value(digits.last())
    }
}

/// What is left of `text` without a plus sign in front.
pub open spec fn unsigned_part(text: Seq<char>) -> Seq<char> {
    if text.len() > 0 && text[0] == '+' {
        text.skip(1)
    } else {
        text
    }
}

/// The seed that `text` stands for: `text` is an optional plus sign and at
/// least one decimal digit, and the number fits in 64 bits.
pub open spec fn parsed_seed(text: Seq<char>) -> Option<u64> {
    let digits = unsigned_part(text);
    if digits.len() > 0 && (forall|i: int| 0 <= i < digits.len() ==> is_digit(digits[i]))
        && decimal_value(digits) <= u64::MAX {
        Some(decimal_value(digits) as u64)
    } else {
        None
    }
}

/// More digits never stand for a smaller number.
pub proof fn lemma_decimal_value_grows(digits: Seq<char>, n: int)
    requires
        0 <= n <= digits.len(),
    ensures
        decimal_value(digits.take(n)) <= decimal_value(digits),
    decreases digits.len(),
{
    if n == digits.len() {
        assert(digits.take(n) =~= digits);
    } else {
        lemma_decimal_value_grows(digits.drop_last(), n);
        assert(digits.drop_last().take(n) =~= digits.take(n));
    }
}

/// Reads a seed from its text: an optional plus sign, then decimal digits.
pub fn parse_seed(text: &str) -> (seed: Option<u64>)
    ensures
        seed == parsed_seed(text@),
{
    let len: usize = text.unicode_len();
    let start: usize = if len > 0 && text.get_char(0) == '+' {
        1
    } else {
        0
    };
    let ghost digits = unsigned_part(text@);
    if start == len {
        return None;
    }
    let mut value: u64 = 0;
    let mut i: usize = start;
    while i < len
        invariant
            start <= i <= len,
            len == text@.len(),
            digits == text@.skip(start as int),
            digits == unsigned_part(text@),
            forall|k: int| 0 <= k < i - start ==> is_digit(digits[k]),
            value == decimal_value(digits.take(i - start)),
        decreases len - i,
    {
        let c: char = text.get_char(i);
        assert(c == digits[i - start]);
        if c < '0' || c > '9' {
            return None;
        }
        let digit: u64 = (c as u32 - '0' as u32) as u64;
        proof {
            let longer = digits.take(i - start + 1);
            assert(longer.drop_last() =~= digits.take(i - start));
            lemma_decimal_value_grows(digits, i - start + 1);
        }
        if value > (u64::MAX - digit) / 10 {
            return None;
        }
        value = value * 10 + digit;
        i = i + 1;
    }
    assert(digits.take(len - start) =~= digits);
    Some(value)
}

/// Why a seed could not be resolved.
#[derive(Debug, Clone, Copy, PartialEq, Eq, Structural)]
pub enum SeedError {
    /// The configured text is not a base-10 unsigned 64-bit integer.
    Unparsable,
}

/// The seed of a test: fixed, or left open.
#[derive(Debug, Clone, Copy, PartialEq, Eq, Structural)]
pub struct Seed {
    /// The fixed seed, if there is one.
    pub value: Option<u64>,
}

/// The seed that a test runs with: its fixed seed if it has one, else the
/// configured seed if one is configured, else `entropy`.
pub open spec fn resolved_seed(value: Option<u64>, configured: Option<Seq<char>>, entropy: u64) -> Result<
    u64,
    SeedError,
> {
    match value {
        Some(fixed) => Ok(fixed),
        None => match configured {
            Some(text) => match parsed_seed(text) {
                Some(seed) => Ok(seed),
                None => Err(SeedError::Unparsable),
            },
            None => Ok(entropy),
        },
    }
}

impl Seed {
    /// Reads a fixed seed from the text of a base-10 integer.
    pub fn parse(text: &str) -> (seed: Option<Seed>)
        ensures
            seed == match parsed_seed(text@) {
                Some(value) => Some(Seed { value: Some(value) }),
                None => None,
            },
    {
        match parse_seed(text) {
            Some(value) => Some(Seed { value: Some(value) }),
            None => None,
        }
    }

    /// The seed that the test runs with. `configured` is the text found
    /// under `DETERMINISTIC_SEED`, if any; `entropy` is a number drawn from
    /// the entropy of the system, used when nothing else decides.
    pub fn resolve(&self, configured: Option<&str>, entropy: u64) -> (seed: Result<u64, SeedError>)
        ensures
            seed == resolved_seed(
                self.value,
                match configured {
                    Some(text) => Some(text@),
                    None => None,
                },
                entropy,
            ),
    {
        match self.value {
            Some(fixed) => Ok(fixed),
            None => match configured {
                Some(text) => match parse_seed(text) {
                    Some(seed) => Ok(seed),
                    None => Err(SeedError::Unparsable),
                },
                None => Ok(entropy),
            },
        }
    }
}

/// The seed of a test that fixes it to `value`.
pub fn with_seed(value: u64) -> (seed: Seed)
    ensures
        seed == (Seed { value: Some(value) }),
{
    Seed { value: Some(value) }
}

/// The seed of a test that leaves it open.
pub fn with_random_seed() -> (seed: Seed)
    ensures
        seed == (Seed { value: None }),
{
    Seed { value: None }
}

} // verus!
