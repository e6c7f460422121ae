//! Deterministic randomness.
use crate::event::{Event, EventPrototype, EventTrigger};
use vstd::prelude::*;

verus! {

/// Seed from which an entropy model is built.
pub type EntropySeed = u64;

/// The model built from an optional seed: the seed itself, or zero.
pub open spec fn seed_model(seed: Option<EntropySeed>) -> u64 {
    match seed {
        Some(s) => s,
        None => 0,
    }
}

/// Returns the model built from an optional seed: the seed itself, or zero.
pub fn model_of_seed(seed: &Option<EntropySeed>) -> (r: u64)
    ensures
        r == seed_model(*seed),
{
    match seed {
        Some(s) => *s,
        None => 0,
    }
}

/// How randomness works in a battle: a model built from a seed, and values drawn from it.
///
/// Entropy must be deterministic: the same seed and the same requests give the same values.
pub trait EntropyRules {
    /// The model built from an optional seed.
    spec fn entropy_model_of(&self, seed: Option<EntropySeed>) -> u64;

    /// The model after drawing a value in `[low, high)`, and that value.
    spec fn drawn(&self, model: u64, low: i64, high: i64) -> (u64, i64);

    /// Builds the model from an optional seed.
    fn generate_model(&self, seed: &Option<EntropySeed>) -> (r: u64)
        ensures
            r == self.entropy_model_of(*seed),
    ;

    /// Draws a value in the half-open range `[low, high)`.
    fn generate(&self, model: &mut u64, low: i64, high: i64) -> (r: i64)
        requires
            low < high,
        ensures
            (*final(model), r) == self.drawn(*old(model), low, high),
            low <= r < high,
    ;
}

/// Multiplier of the linear generator.
pub const MULTIPLIER: u64 = 6364136223846793005;

/// Increment of the linear generator.
pub const INCREMENT: u64 = 1442695040888963407;

/// The state that follows `s` in the linear generator.
pub open spec fn next_state(s: u64) -> u64 {
    ((s as int * MULTIPLIER as int + INCREMENT as int) % 0x1_0000_0000_0000_0000) as u64
}

/// The value in `[low, high)` that the state `s` stands for.
pub open spec fn draw(s: u64, low: i64, high: i64) -> i64 {
    (low + (s as int / 0x2_0000_0000) % (high - low)) as i64
}

/// Entropy rules built on a 64-bit linear congruential generator; the model is its state.
#[derive(Clone, Copy, Debug, Default, PartialEq, Eq, Structural)]
pub struct LinearEntropy {}

impl EntropyRules for LinearEntropy {
    open spec fn entropy_model_of(&self, seed: Option<EntropySeed>) -> u64 {
        seed_model(seed)
    }

    open spec fn drawn(&self, model: u64, low: i64, high: i64) -> (u64, i64) {
        (next_state(model), draw(next_state(model), low, high))
    }

    fn generate_model(&self, seed: &Option<EntropySeed>) -> (r: u64) {
        model_of_seed(seed)
    }

    fn generate(&self, model: &mut u64, low: i64, high: i64) -> (r: i64) {
        let s = *model as u128;
        proof {
            assert(s * (MULTIPLIER as u128) <= 0xFFFF_FFFF_FFFF_FFFFu128 * 6364136223846793005u128)
                by (nonlinear_arith)
                requires
                    s <= 0xFFFF_FFFF_FFFF_FFFFu128,
            ;
        }
        let n = ((s * (MULTIPLIER as u128) + (INCREMENT as u128)) % 0x1_0000_0000_0000_0000u128) as u64;
        *model = n;
        let width = (high as i128 - low as i128) as u128;
        let v = ((n / 0x2_0000_0000u64) as u128) % width;
        (low as i128 + v as i128) as i64
    }
}

/// The model after a request for a value between `low` and `high`, and that value.
///
/// The bounds are taken in either order; equal bounds give that value and leave the model
/// as it was.
pub open spec fn generated<R: EntropyRules>(rules: R, model: u64, low: i64, high: i64) -> (u64, i64) {
    if low == high {
        (model, low)
    } else if low < high {
        rules.drawn(model, low, high)
    } else {
        rules.drawn(model, high, low)
    }
}

/// The model after a sequence of requests, and the values produced, in order.
pub open spec fn generated_sequence<R: EntropyRules>(rules: R, model: u64, requests: Seq<(i64, i64)>) -> (u64, Seq<i64>)
    decreases requests.len(),
{
    if requests.len() == 0 {
        (model, Seq::empty())
    } else {
        let (m, outs) = generated_sequence(rules, model, requests.drop_last());
        let (m2, v) = generated(rules, m, requests.last().0, requests.last().1);
        (m2, outs.push(v))
    }
}

/// Manages everything related to randomness inside a battle: the model that the rules
/// draw values from.
pub struct Entropy {
    pub(crate) model: u64,
}

impl Entropy {
    /// The model.
    pub open(crate) spec fn spec_model(&self) -> u64 {
        self.model
    }

    /// Creates an entropy object whose model the rules build from an optional seed.
    pub fn new<R: EntropyRules>(rules: &R, seed: Option<EntropySeed>) -> (r: Entropy)
        ensures
            r.spec_model() == rules.entropy_model_of(seed),
    {
        Entropy { model: rules.generate_model(&seed) }
    }

    /// Returns a value in the half-open range between `low` and `high`, taken in either
    /// order, drawn by the rules. Equal bounds give that value without using the rules.
    pub fn generate<R: EntropyRules>(&mut self, rules: &R, low: i64, high: i64) -> (r: i64)
        ensures
            (final(self).spec_model(), r) == generated(*rules, old(self).spec_model(), low, high),
            low < high ==> low <= r < high,
            high < low ==> high <= r < low,
            low == high ==> r == low,
    {
        if low == high {
            low
        } else if low < high {
            rules.generate(&mut self.model, low, high)
        } else {
            rules.generate(&mut self.model, high, low)
        }
    }

    /// Answers a sequence of requests, in order, returning the values produced.
    pub fn generate_sequence<R: EntropyRules>(&mut self, rules: &R, requests: &Vec<(i64, i64)>) -> (r: Vec<i64>)
        ensures
            (final(self).spec_model(), r@) == generated_sequence(*rules, old(self).spec_model(), requests@),
    {
        let mut out: Vec<i64> = Vec::new();
        let mut i: usize = 0;
        while i < requests.len()
            invariant
                i <= requests@.len(),
                (self.model, out@) == generated_sequence(*rules, old(self).model, requests@.take(i as int)),
            decreases requests.len() - i,
        {
            let (low, high) = requests[i];
            let v = self.generate(rules, low, high);
            out.push(v);
            proof {
                assert(requests@.take(i + 1).drop_last() == requests@.take(i as int));
            }
            i += 1;
        }
        proof {
            assert(requests@.take(requests@.len() as int) == requests@);
        }
        out
    }

    /// Returns the model.
    pub fn model(&self) -> (r: u64)
        ensures
            r == self.spec_model(),
    {
        self.model
    }

    /// Returns a mutable reference to the model.
    pub fn model_mut(&mut self) -> (r: &mut u64)
        ensures
            *r == old(self).spec_model(),
            final(self).spec_model() == *final(r),
    {
        &mut self.model
    }

    /// Rebuilds the model from the given seed.
    pub(crate) fn regenerate_model<R: EntropyRules>(&mut self, rules: &R, seed: &Option<EntropySeed>)
        ensures
            final(self).spec_model() == rules.entropy_model_of(*seed),
    {
        self.model = rules.generate_model(seed);
    }
}

/// The bounds of a request may be given in either order, and equal bounds give their value.
pub proof fn lemma_generate_symmetric<R: EntropyRules>(rules: R, model: u64, low: i64, high: i64)
    ensures
        generated(rules, model, low, high) == generated(rules, model, high, low),
        generated(rules, model, low, low) == (model, low),
{
}

/// Entropy is determined by its seed: two models built by the same rules from the same
/// seed give the same values for the same requests, and end in the same state.
pub proof fn lemma_same_seed_same_values<R: EntropyRules>(
    rules: R,
    seed: Option<EntropySeed>,
    a: Entropy,
    b: Entropy,
    requests: Seq<(i64, i64)>,
)
    requires
        a.spec_model() == rules.entropy_model_of(seed),
        b.spec_model() == rules.entropy_model_of(seed),
    ensures
        generated_sequence(rules, a.spec_model(), requests) == generated_sequence(rules, b.spec_model(), requests),
{
}

/// Event to rebuild the entropy model from a seed.
#[derive(Clone, Copy, Debug, PartialEq, Eq, Structural)]
pub struct ResetEntropy {
    pub seed: Option<EntropySeed>,
}

impl ResetEntropy {
    /// Returns a trigger for this event, without a seed.
    pub fn trigger() -> (r: ResetEntropyTrigger)
        ensures
            r == (ResetEntropyTrigger { seed: None }),
    {
        ResetEntropyTrigger { seed: None }
    }

    /// Returns the new seed.
    pub fn seed(&self) -> (r: Option<EntropySeed>)
        ensures
            r == self.seed,
    {
        self.seed
    }
}

/// Trigger to build and fire a `ResetEntropy` event.
#[derive(Clone, Copy, Debug, PartialEq, Eq, Structural)]
pub struct ResetEntropyTrigger {
    pub seed: Option<EntropySeed>,
}

impl ResetEntropyTrigger {
    /// Sets the seed of the new model.
    pub fn seed(self, seed: EntropySeed) -> (r: ResetEntropyTrigger)
        ensures
            r == (ResetEntropyTrigger { seed: Some(seed) }),
    {
        ResetEntropyTrigger { seed: Some(seed) }
    }
}

impl EventTrigger for ResetEntropyTrigger {
    open spec fn spec_prototype(self) -> EventPrototype {
        EventPrototype::spec_new(Event::ResetEntropy(ResetEntropy { seed: self.seed }))
    }

    fn prototype(self) -> (r: EventPrototype) {
        EventPrototype::new(Event::ResetEntropy(ResetEntropy { seed: self.seed }))
    }
}

} // verus!
