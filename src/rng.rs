//! Chained pseudo-random seeds.
//!
//! Every seed is a plain 64-bit integer: the next value is drawn from a generator
//! seeded with the previous one, so rolling back a seed means restoring one integer.
use seeded_random::{Random, Seed};
use vstd::prelude::*;

verus! {

/// First 64-bit value drawn from a generator seeded with `seed`.
pub uninterp spec fn seeded_u64(seed: u64) -> u64;

/// First 32-bit value drawn from a generator seeded with `seed`.
pub uninterp spec fn seeded_u32(seed: u64) -> u32;

/// The 64-bit value drawn from a generator seeded with `seed` right after its first
/// 32-bit value.
pub uninterp spec fn seeded_u64_after_u32(seed: u64) -> u64;

/// Relies on `seeded_random::Random::from_seed` and `Random::gen::<u64>`: a fresh
/// generator seeded with `seed` yields a value that depends on `seed` alone.
#[verifier::external_body]
pub(crate) fn draw_u64(seed: u64) -> (r: u64)
    ensures
        r == seeded_u64(seed),
{
    Random::from_seed(Seed::unsafe_new(seed)).gen::<u64>()
}

/// Relies on `seeded_random::Random::from_seed`, `Random::u32` and `Random::seed`:
/// a fresh generator seeded with `seed` first yields a 32-bit value, then the
/// 64-bit value behind the seed that `Random::seed` hands out; both depend on
/// `seed` alone.
#[verifier::external_body]
pub(crate) fn draw_u32_then_u64(seed: u64) -> (r: (u32, u64))
    ensures
        r.0 == seeded_u32(seed),
        r.1 == seeded_u64_after_u32(seed),
{
    let rng = Random::from_seed(Seed::unsafe_new(seed));
    let value = rng.u32();
    let next = rng.gen::<u64>();
    (value, next)
}

/// The seed reached from `seed` after `n` chained draws.
pub open spec fn chain(seed: u64, n: nat) -> u64
    decreases n,
{
    if n == 0 {
        seed
    } else {
        seeded_u64(chain(seed, (n - 1) as nat))
    }
}

/// A per-player seed for sound sub-keys: each draw re-seeds from the previous output.
#[derive(Clone, Copy, Debug, Default, PartialEq, Eq, Structural)]
pub struct SoundSeed(pub u64);

impl SoundSeed {
    /// Moves the seed on by one draw and returns the new value.
    pub fn next(&mut self) -> (r: u64)
        ensures
            r == seeded_u64(old(self).0),
            final(self).0 == r,
    {
        self.0 = draw_u64(self.0);
        self.0
    }

    /// Same as `next`, as a `usize`.
    pub fn next_us(&mut self) -> (r: usize)
        ensures
            final(self).0 == seeded_u64(old(self).0),
            r == final(self).0 as usize,
    {
        self.next() as usize
    }
}

/// The sound seeds of the two player slots.
#[derive(Clone, Copy, Debug, Default, PartialEq, Eq)]
pub struct SoundIdSeed(pub (SoundSeed, SoundSeed));

impl SoundIdSeed {
    /// The seed of slot `handle` after one draw for that slot; other handles draw nothing.
    pub open spec fn advanced(self, handle: usize) -> SoundIdSeed {
        if handle == 0 {
            SoundIdSeed((SoundSeed(seeded_u64((self.0).0.0)), (self.0).1))
        } else if handle == 1 {
            SoundIdSeed(((self.0).0, SoundSeed(seeded_u64((self.0).1.0))))
        } else {
            self
        }
    }

    /// The value that a draw for slot `handle` returns.
    pub open spec fn drawn(self, handle: usize) -> u64 {
        if handle == 0 {
            seeded_u64((self.0).0.0)
        } else if handle == 1 {
            seeded_u64((self.0).1.0)
        } else {
            0
        }
    }

    /// Moves the seed of slot `handle` on by one and returns its value; a handle
    /// outside the two slots draws nothing and yields 0.
    pub fn next(&mut self, handle: usize) -> (r: u64)
        ensures
            r == old(self).drawn(handle),
            *final(self) == old(self).advanced(handle),
    {
        match handle {
            0 => self.0.0.next(),
            1 => self.0.1.next(),
            _ => 0,
        }
    }

    /// Same as `next`, as a `usize`.
    pub fn next_us(&mut self, handle: usize) -> (r: usize)
        ensures
            r == old(self).drawn(handle) as usize,
            *final(self) == old(self).advanced(handle),
    {
        self.next(handle) as usize
    }
}

/// The seed of the spawn positions; it moves on by one draw every round.
#[derive(Clone, Copy, Debug, Default, PartialEq, Eq, Structural)]
pub struct GameSeed(pub u64);

impl GameSeed {
    /// Moves the seed on by one draw.
    pub fn advance(&mut self)
        ensures
            final(self).0 == seeded_u64(old(self).0),
    {
        self.0 = draw_u64(self.0);
    }
}

/// Drawing `n` times from equal seeds reaches equal seeds, and one more draw from
/// the seed reached after `n` draws is the seed reached after `n + 1`.
pub proof fn chain_reproducible(s1: u64, s2: u64, n: nat)
    requires
        s1 == s2,
    ensures
        chain(s1, n) == chain(s2, n),
        seeded_u64(chain(s1, n)) == chain(s2, n + 1),
{
}

/// Draws `n` times from `seed` and returns the seed reached.
pub fn next_n(seed: &mut SoundSeed, n: u64)
    ensures
        final(seed).0 == chain(old(seed).0, n as nat),
{
    let mut i: u64 = 0;
    while i < n
        invariant
            i <= n,
            seed.0 == chain(old(seed).0, i as nat),
        decreases n - i,
    {
        seed.next();
        i = i + 1;
    }
}

} // verus!
