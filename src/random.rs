//! A seeded source of random values.
//!
//! The generator is rand's ISAAC-64, which yields the same stream for the same seed
//! on every machine. Its state is modelled by the seed it was given and the requests
//! made of it since: each answer is a function of those alone.
use vstd::prelude::*;
use rand::isaac::Isaac64Rng;
use rand::{Rng, SeedableRng};

verus! {

#[verifier::external_type_specification]
#[verifier::external_body]
pub struct ExIsaac64Rng(Isaac64Rng);

/// One request made of a random source, with what it asks for.
#[derive(Clone, Copy, Debug, PartialEq, Eq, Structural)]
pub enum Draw {
    /// An integer in `[min, max)`.
    Int { min: i32, max: i32 },
    /// 64 uniform bits.
    Bits,
}

/// Half of the range of a 53-bit draw, which stands for one half.
pub const HALF_OF_53_BITS: u64 = 0x10_0000_0000_0000;

/// What a request answers.
#[derive(Clone, Copy, Debug, PartialEq, Eq, Structural)]
pub enum Outcome {
    Int(i32),
    Bits(u64),
}

/// The integer that ISAAC-64 seeded with `seed` answers to the last of `calls`.
pub uninterp spec fn int_drawn(seed: u64, calls: Seq<Draw>) -> i32;

/// The bits that ISAAC-64 seeded with `seed` answers to the last of `calls`.
pub uninterp spec fn bits_drawn(seed: u64, calls: Seq<Draw>) -> u64;

/// The answer that a source seeded with `seed` gives to the last of `calls`.
pub open spec fn answer(seed: u64, calls: Seq<Draw>) -> Outcome
    recommends
        calls.len() > 0,
{
    match calls.last() {
        Draw::Int { .. } => Outcome::Int(int_drawn(seed, calls)),
        Draw::Bits => Outcome::Bits(bits_drawn(seed, calls)),
    }
}

/// The answers, in order, that a source seeded with `seed` gives to `calls`.
pub open spec fn answers(seed: u64, calls: Seq<Draw>) -> Seq<Outcome> {
    Seq::new(calls.len(), |k: int| answer(seed, calls.take(k + 1)))
}

/// A seeded random source.
///
/// Its generator is always in the state that seeding with `seed` followed by the
/// requests in `calls` leaves it in.
pub struct Random {
    rng: Isaac64Rng,
    seed: Ghost<u64>,
    calls: Ghost<Seq<Draw>>,
}

/// Relies on rand's `SeedableRng::from_seed` for `Isaac64Rng`: a generator whose
/// state depends on the seed alone.
#[verifier::external_body]
fn seeded_generator(seed: u64) -> (r: Isaac64Rng) {
    Isaac64Rng::from_seed(&[seed][..])
}

/// Relies on rand's `SeedableRng::reseed` for `Isaac64Rng`, which overwrites the whole
/// state from the seed exactly as `from_seed` does.
#[verifier::external_body]
fn reseed_generator(rng: &mut Isaac64Rng, seed: u64) {
    rng.reseed(&[seed][..])
}

/// Relies on `rand::random`: a seed from the thread's own generator, of which
/// nothing is promised.
#[verifier::external_body]
fn fresh_seed() -> (r: usize) {
    rand::random::<usize>()
}

impl Random {
    /// The seed the generator was last given.
    pub closed spec fn seed(&self) -> u64 {
        self.seed@
    }

    /// The requests made since the generator was last seeded.
    pub closed spec fn calls(&self) -> Seq<Draw> {
        self.calls@
    }

    /// The answer this source gives to `d`, asked next.
    pub open spec fn next_answer(&self, d: Draw) -> Outcome {
        answer(self.seed(), self.calls().push(d))
    }

    /// Relies on rand's `Rng::gen_range`, which panics unless `min < max` and else
    /// answers in `[min, max)`.
    #[verifier::external_body]
    fn draw_int(&mut self, min: i32, max: i32) -> (r: i32)
        requires
            min < max,
        ensures
            r == int_drawn(old(self).seed(), old(self).calls().push(Draw::Int { min, max })),
            min <= r < max,
            final(self).seed() == old(self).seed(),
            final(self).calls() == old(self).calls().push(Draw::Int { min, max }),
    {
        self.rng.gen_range(min, max)
    }

    /// Relies on rand's `Rng::next_u64`.
    #[verifier::external_body]
    fn draw_bits(&mut self) -> (r: u64)
        ensures
            r == bits_drawn(old(self).seed(), old(self).calls().push(Draw::Bits)),
            final(self).seed() == old(self).seed(),
            final(self).calls() == old(self).calls().push(Draw::Bits),
    {
        self.rng.next_u64()
    }

    /// A source seeded with `seed`.
    pub fn from_seed(seed: usize) -> (r: Random)
        ensures
            r.seed() == seed as u64,
            r.calls() == Seq::<Draw>::empty(),
    {
        let s = seed as u64;
        Random { rng: seeded_generator(s), seed: Ghost(s), calls: Ghost(Seq::empty()) }
    }

    /// A source seeded from the thread's own entropy.
    pub fn new() -> (r: Random)
        ensures
            r.calls() == Seq::<Draw>::empty(),
    {
        Random::from_seed(fresh_seed())
    }

    /// Seeds this source again: from here on it answers as a fresh source with `seed`.
    pub fn reseed(&mut self, seed: usize)
        ensures
            final(self).seed() == seed as u64,
            final(self).calls() == Seq::<Draw>::empty(),
    {
        let s = seed as u64;
        reseed_generator(&mut self.rng, s);
        self.seed = Ghost(s);
        self.calls = Ghost(Seq::empty());
    }

    /// A uniform integer in `[min, max)`. The range must not be empty.
    pub fn integer(&mut self, min: i32, max: i32) -> (r: i32)
        requires
            min < max,
        ensures
            min <= r < max,
            Outcome::Int(r) == old(self).next_answer(Draw::Int { min, max }),
            final(self).seed() == old(self).seed(),
            final(self).calls() == old(self).calls().push(Draw::Int { min, max }),
    {
        let r = self.draw_int(min, max);
        proof {
            assert(old(self).calls().push(Draw::Int { min, max }).last() == Draw::Int { min, max });
        }
        r
    }

    /// A fair coin: one uniform draw of 53 bits, the fraction they make compared with
    /// one half.
    pub fn boolean(&mut self) -> (r: bool)
        ensures
            r == ((bits_drawn(old(self).seed(), old(self).calls().push(Draw::Bits)) >> 11u64)
                < HALF_OF_53_BITS),
            final(self).seed() == old(self).seed(),
            final(self).calls() == old(self).calls().push(Draw::Bits),
    {
        let b = self.draw_bits();
        (b >> 11u64) < HALF_OF_53_BITS
    }

    /// 64 uniform bits, from which a caller may build a value of another kind.
    pub fn bits(&mut self) -> (r: u64)
        ensures
            Outcome::Bits(r) == old(self).next_answer(Draw::Bits),
            final(self).seed() == old(self).seed(),
            final(self).calls() == old(self).calls().push(Draw::Bits),
    {
        let r = self.draw_bits();
        proof {
            assert(old(self).calls().push(Draw::Bits).last() == Draw::Bits);
        }
        r
    }
}

/// Determinism: two sources given the same seed and then asked the same requests
/// are in the same state, and so answer the next request alike; the answers they
/// gave along the way are the same sequence, fixed by the seed and the requests.
pub proof fn lemma_same_seed_same_answers(a: &Random, b: &Random, next: Draw)
    requires
        a.seed() == b.seed(),
        a.calls() == b.calls(),
    ensures
        a.next_answer(next) == b.next_answer(next),
        answers(a.seed(), a.calls()) == answers(b.seed(), b.calls()),
{
}

/// Each answer a source gives is the last entry of the answers to all requests so far.
pub proof fn lemma_answers_extend(seed: u64, calls: Seq<Draw>, next: Draw)
    ensures
        answers(seed, calls.push(next)) == answers(seed, calls).push(answer(seed, calls.push(next))),
{
    let ext = calls.push(next);
    assert forall|k: int| 0 <= k < calls.len() implies #[trigger] ext.take(k + 1) == calls.take(k + 1) by {
        assert(ext.take(k + 1) =~= calls.take(k + 1));
    }
    assert(ext.take(calls.len() + 1 as int) =~= ext);
    assert(answers(seed, ext) =~= answers(seed, calls).push(answer(seed, ext)));
}

} // verus!
