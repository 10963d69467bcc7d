//! Inject failure with buggify.
//!
//! `buggify` lets code under test cooperate with the simulator to inject
//! failures. It has the following rules:
//! 1. it only ever evaluates to true while buggify is enabled;
//! 1. a call-site that has evaluated to true never does so again until
//!    buggify is disabled;
//! 1. a call-site that has not fired yet has, on each evaluation, a chance of
//!    firing: by default 5%.
//!
//! A call-site is named by a text, by convention `"<file>:<line>"`.

use crate::deterministic::random::DeterministicRandom;
use crate::deterministic::random::Draw;
use vstd::hash_map::StringHashMap;
use vstd::prelude::*;

verus! {

/// Numerator of the default probability of firing: 1 in 20.
pub const DEFAULT_NUMERATOR: u32 = 1;

/// Denominator of the default probability of firing: 1 in 20.
pub const DEFAULT_DENOMINATOR: u32 = 20;

/// The character that writes the decimal digit `digit`.
pub open spec fn digit_char(digit: nat) -> char {
    if digit == 0 {
        '0'
    } else if digit == 1 {
        '1'
    } else if digit == 2 {
        '2'
    } else if digit == 3 {
        '3'
    } else if digit == 4 {
        '4'
    } else if digit == 5 {
        '5'
    } else if digit == 6 {
        '6'
    } else if digit == 7 {
        '7'
    } else if digit == 8 {
        '8'
    } else {
        '9'
    }
}

/// The number `n` written in decimal digits, without leading zeros.
pub open spec fn decimal_text(n: nat) -> Seq<char>
    decreases n,
{
    if n < 10 {
        seq![digit_char(n)]
    } else {
        decimal_text(n / 10).push(digit_char(n % 10))
    }
}

/// The name of the call-site at line `line` of the file `file`: the file, a
/// colon and the line in decimal digits.
pub open spec fn call_site_text(file: Seq<char>, line: u32) -> Seq<char> {
    file + seq![':'] + decimal_text(line as nat)
}

/// The text of one decimal digit.
fn digit_str(digit: u32) -> (text: &'static str)
    requires
        digit < 10,
    ensures
        text@ == seq![digit_char(digit as nat)],
{
    proof {
        reveal_strlit("0");
        reveal_strlit("1");
        reveal_strlit("2");
        reveal_strlit("3");
        reveal_strlit("4");
        reveal_strlit("5");
        reveal_strlit("6");
        reveal_strlit("7");
        reveal_strlit("8");
        reveal_strlit("9");
    }
    let text = if digit == 0 {
        "0"
    } else if digit == 1 {
        "1"
    } else if digit == 2 {
        "2"
    } else if digit == 3 {
        "3"
    } else if digit == 4 {
        "4"
    } else if digit == 5 {
        "5"
    } else if digit == 6 {
        "6"
    } else if digit == 7 {
        "7"
    } else if digit == 8 {
        "8"
    } else {
        "9"
    };
    text
}

/// Appends `n`, written in decimal digits, to `out`.
fn push_decimal(out: &mut String, n: u32)
    ensures
        final(out)@ == old(out)@ + decimal_text(n as nat),
    decreases n,
{
    if n >= 10 {
        push_decimal(out, n / 10);
    }
    out.append(digit_str(n % 10));
}

/// The name of the call-site at line `line` of the file `file`.
pub fn call_site(file: &str, line: u32) -> (site: String)
    ensures
        site@ == call_site_text(file@, line),
{
    proof {
        reveal_strlit(":");
    }
    let mut site: String = file.to_owned();
    site.append(":");
    push_decimal(&mut site, line);
    site
}

/// What one query does to an enabled buggifier that holds the fired
/// call-sites `fired`, when the random source answers `draw`: whether the
/// query fires, and the call-sites that have fired afterwards.
pub open spec fn query(fired: Set<Seq<char>>, site: Seq<char>, draw: bool) -> (bool, Set<
    Seq<char>,
>) {
    if !fired.contains(site) && draw {
        (true, fired.insert(site))
    } else {
        (false, fired)
    }
}

/// The call-sites that have fired after the queries `events`, each a
/// call-site and the answer of the random source, were made in order on an
/// enabled buggifier that held `fired`.
pub open spec fn fired_after(fired: Set<Seq<char>>, events: Seq<(Seq<char>, bool)>) -> Set<
    Seq<char>,
>
    decreases events.len(),
{
    if events.len() == 0 {
        fired
    } else {
        query(fired_after(fired, events.drop_last()), events.last().0, events.last().1).1
    }
}

/// How many of the queries `events`, made in order on an enabled buggifier
/// that held `fired`, fired at the call-site `site`.
pub open spec fn times_fired(fired: Set<Seq<char>>, events: Seq<(Seq<char>, bool)>, site: Seq<
    char,
>) -> nat
    decreases events.len(),
{
    if events.len() == 0 {
        0
    } else {
        let before = fired_after(fired, events.drop_last());
        let last = query(before, events.last().0, events.last().1).0;
        times_fired(fired, events.drop_last(), site) + if last && events.last().0 == site {
            1nat
        } else {
            0nat
        }
    }
}

/// One-shot: whatever the random source answers, a call-site fires at most
/// once while buggify stays enabled, and never again once it has fired.
pub proof fn lemma_fires_at_most_once(
    fired: Set<Seq<char>>,
    events: Seq<(Seq<char>, bool)>,
    site: Seq<char>,
)
    ensures
        times_fired(fired, events, site) <= 1,
        fired.contains(site) ==> times_fired(fired, events, site) == 0,
        times_fired(fired, events, site) == 1 ==> fired_after(fired, events).contains(site),
        fired.subset_of(fired_after(fired, events)),
    decreases events.len(),
{
    if events.len() > 0 {
        lemma_fires_at_most_once(fired, events.drop_last(), site);
    }
}

/// Buggifier's definition.
pub struct Buggifier {
    buggified_lines: StringHashMap<bool>,
    random: Option<DeterministicRandom>,
}

impl Buggifier {
    /// Whether buggify is enabled.
    pub closed spec fn enabled(&self) -> bool {
        self.random is Some
    }

    /// The call-sites that have fired since buggify was last disabled.
    pub closed spec fn fired(&self) -> Set<Seq<char>> {
        self.buggified_lines@.dom()
    }

    /// Every answer that the random source of the buggifier has given,
    /// oldest first; none while buggify is disabled.
    pub closed spec fn drawn(&self) -> Seq<Draw> {
        match self.random {
            Some(random) => random.drawn(),
            None => Seq::<Draw>::empty(),
        }
    }

    /// How many times the random source of the buggifier has been asked;
    /// zero while buggify is disabled.
    pub open spec fn draws(&self) -> nat {
        self.drawn().len()
    }

    /// The seed of the random source of the buggifier, while buggify is
    /// enabled.
    pub closed spec fn seed(&self) -> Option<u64> {
        match self.random {
            Some(random) => Some(random.seed()),
            None => None,
        }
    }

    /// Whether a query at the call-site `line`, with a probability of
    /// `numerator / denominator`, can answer `fires` and leave the buggifier
    /// as `after`.
    ///
    /// The random source is asked, once, exactly when buggify is enabled and
    /// the call-site has not fired yet; the query then fires exactly when the
    /// source answers `true`, and no other query fires. The call-site has
    /// fired afterwards exactly when it had before or fires now. A
    /// probability of one always fires when the source is asked, a
    /// probability of zero never does.
    pub open spec fn answers(
        &self,
        after: &Buggifier,
        line: Seq<char>,
        numerator: u32,
        denominator: u32,
        fires: bool,
    ) -> bool {
        let asked = self.enabled() && !self.fired().contains(line);
        &&& after.enabled() == self.enabled()
        &&& after.seed() == self.seed()
        &&& (fires, after.fired()) == query(self.fired(), line, fires)
        &&& fires ==> asked
        &&& after.drawn() == if asked {
            self.drawn().push(Draw::Boolean(fires))
        } else {
            self.drawn()
        }
        &&& asked && numerator == denominator ==> fires
        &&& numerator == 0 ==> !fires
    }

    /// Create a new, enabled Buggifier around a random source.
    pub fn new(r: DeterministicRandom) -> (buggifier: Buggifier)
        ensures
            buggifier.enabled(),
            buggifier.fired() == Set::<Seq<char>>::empty(),
            buggifier.drawn() == r.drawn(),
            buggifier.seed() == Some(r.seed()),
    {
        Buggifier { buggified_lines: StringHashMap::new(), random: Some(r) }
    }

    /// Whether a query at `line` would consult the random source: buggify is
    /// enabled and the call-site has not fired yet.
    pub fn should_draw(&self, line: &str) -> (asks: bool)
        ensures
            asks == (self.enabled() && !self.fired().contains(line@)),
    {
        self.random.is_some() && !self.buggified_lines.contains_key(line)
    }

    /// Applies the answer `draw` of the random source to the call-site
    /// `line`: the call-site fires if the answer is `true` and it has not
    /// fired before.
    pub fn record(&mut self, line: String, draw: bool) -> (fires: bool)
        ensures
            (fires, final(self).fired()) == query(old(self).fired(), line@, draw),
            final(self).enabled() == old(self).enabled(),
            final(self).seed() == old(self).seed(),
            final(self).drawn() == old(self).drawn(),
    {
        if draw && !self.buggified_lines.contains_key(line.as_str()) {
            self.buggified_lines.insert(line, true);
            true
        } else {
            false
        }
    }

    /// `buggify` will return true only once per call-site, with a
    /// probability of 0.05 at each evaluation before that.
    pub fn buggify(&mut self, line: String) -> (fires: bool)
        ensures
            old(self).answers(final(self), line@, DEFAULT_NUMERATOR, DEFAULT_DENOMINATOR, fires),
    {
        self.handle_buggify(line, DEFAULT_NUMERATOR, DEFAULT_DENOMINATOR)
    }

    /// `buggify` version where you can choose the probability,
    /// `numerator / denominator`.
    pub fn buggify_with_prob(&mut self, line: String, numerator: u32, denominator: u32) -> (fires:
        bool)
        requires
            old(self).enabled() && !old(self).fired().contains(line@) ==> 0 < denominator
                && numerator <= denominator,
        ensures
            old(self).answers(final(self), line@, numerator, denominator, fires),
    {
        self.handle_buggify(line, numerator, denominator)
    }

    /// One query at the call-site `line` with a probability of
    /// `numerator / denominator`.
    ///
    /// A disabled buggifier answers `false`. So does a call-site that has
    /// fired already, without consulting the random source. Any other query
    /// consults the random source once; the call-site fires, and is
    /// remembered, if the answer is `true`.
    pub fn handle_buggify(&mut self, line: String, numerator: u32, denominator: u32) -> (fires:
        bool)
        requires
            old(self).enabled() && !old(self).fired().contains(line@) ==> 0 < denominator
                && numerator <= denominator,
        ensures
            old(self).answers(final(self), line@, numerator, denominator, fires),
    {
        if !self.should_draw(line.as_str()) {
            return false;
        }
        let draw: bool = match &mut self.random {
            Some(deterministic_random) => deterministic_random.random_boolean(
                numerator,
                denominator,
            ),
            None => false,
        };
        self.record(line, draw)
    }

    /// Checks if buggify is enabled.
    pub fn is_buggify_enabled(&self) -> (enabled: bool)
        ensures
            enabled == self.enabled(),
    {
        self.random.is_some()
    }

    /// Enables buggify by giving a random source. The call-sites that have
    /// fired stay fired.
    pub fn enable_buggify(&mut self, r: DeterministicRandom)
        ensures
            final(self).enabled(),
            final(self).fired() == old(self).fired(),
            final(self).drawn() == r.drawn(),
            final(self).seed() == Some(r.seed()),
    {
        self.random = Some(r);
    }

    /// Disable buggify, and forget which call-sites have fired.
    pub fn disable_buggify(&mut self)
        ensures
            !final(self).enabled(),
            final(self).seed() is None,
            final(self).drawn() == Seq::<Draw>::empty(),
            final(self).fired() == Set::<Seq<char>>::empty(),
    {
        self.random = None;
        self.buggified_lines.clear();
    }

    /// Whether the call-site `line` has fired.
    pub fn has_fired(&self, line: &str) -> (fired: bool)
        ensures
            fired == self.fired().contains(line@),
    {
        self.buggified_lines.contains_key(line)
    }

    /// How many call-sites have fired.
    pub fn fired_count(&self) -> (count: usize)
        ensures
            count == self.fired().len(),
    {
        self.buggified_lines.len()
    }
}

impl Default for Buggifier {
    /// Create a new, disabled Buggifier.
    fn default() -> (buggifier: Buggifier)
        ensures
            !buggifier.enabled(),
            buggifier.seed() is None,
            buggifier.drawn() == Seq::<Draw>::empty(),
            buggifier.fired() == Set::<Seq<char>>::empty(),
    {
        Buggifier { buggified_lines: StringHashMap::new(), random: None }
    }
}

/// Checks if buggify is enabled on `instance`, the buggifier that the
/// process shares.
pub fn is_buggify_enabled(instance: &Buggifier) -> (enabled: bool)
    ensures
        enabled == instance.enabled(),
{
    instance.is_buggify_enabled()
}

/// Enables buggify on `instance`, the buggifier that the process shares, by
/// giving a random source. The call-sites that have fired stay fired.
pub fn enable_buggify(instance: &mut Buggifier, r: DeterministicRandom)
    ensures
        final(instance).enabled(),
        final(instance).fired() == old(instance).fired(),
        final(instance).drawn() == r.drawn(),
        final(instance).seed() == Some(r.seed()),
{
    instance.enable_buggify(r)
}

/// Disables buggify on `instance`, the buggifier that the process shares,
/// and forgets which call-sites have fired.
pub fn disable_buggify(instance: &mut Buggifier)
    ensures
        !final(instance).enabled(),
        final(instance).fired() == Set::<Seq<char>>::empty(),
{
    instance.disable_buggify()
}

/// One query on `instance`, the buggifier that the process shares, at the
/// call-site `line` with a probability of `numerator / denominator`.
pub fn handle_buggify(instance: &mut Buggifier, line: String, numerator: u32, denominator: u32) -> (fires:
    bool)
    requires
        old(instance).enabled() && !old(instance).fired().contains(line@) ==> 0 < denominator
            && numerator <= denominator,
    ensures
        old(instance).answers(final(instance), line@, numerator, denominator, fires),
{
    instance.handle_buggify(line, numerator, denominator)
}

} // verus!
