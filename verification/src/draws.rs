//! The randomness source consumed by the resolver.
//!
//! A [`RandomSource`] holds a fixed sequence of raw 64-bit draws and a cursor.
//! Everything computed from it is a pure function of that sequence, so
//! resolution is deterministic for a fixed source; a source filled from system
//! entropy gives fresh results on every attempt. Reading past the end of the
//! sequence yields 0, so every operation is total.

use vstd::prelude::*;

verus! {

/// The raw draw at position `pos` of the sequence `s`; 0 once the sequence is
/// exhausted.
pub open spec fn raw_at(s: Seq<u64>, pos: int) -> u64 {
    if 0 <= pos < s.len() {
        s[pos]
    } else {
        0
    }
}

/// The cursor position after one draw: it advances only while draws remain.
pub open spec fn next_pos(s: Seq<u64>, pos: int) -> int {
    if 0 <= pos < s.len() {
        pos + 1
    } else {
        pos
    }
}

/// A stream of raw 64-bit values with a cursor.
pub struct RandomSource {
    draws: Vec<u64>,
    pos: usize,
}

impl RandomSource {
    /// The whole underlying draw sequence.
    pub closed spec fn seq(&self) -> Seq<u64> {
        self.draws@
    }

    /// The current cursor position.
    pub closed spec fn position(&self) -> int {
        self.pos as int
    }

    pub closed spec fn wf(&self) -> bool {
        self.pos <= self.draws.len()
    }

    /// A source that replays exactly the given draws, for reproducible
    /// resolution.
    pub fn from_draws(draws: Vec<u64>) -> (r: RandomSource)
        ensures
            r.seq() == draws@,
            r.position() == 0,
            r.wf(),
    {
        RandomSource { draws, pos: 0 }
    }

    /// A source holding `n` draws of system entropy.
    pub fn from_entropy(n: usize) -> (r: RandomSource)
        ensures
            r.seq().len() == n,
            r.position() == 0,
            r.wf(),
    {
        let mut draws: Vec<u64> = Vec::new();
        let mut i: usize = 0;
        while i < n
            invariant
                i <= n,
                draws@.len() == i,
            decreases n - i,
        {
            draws.push(random_u64());
            i = i + 1;
        }
        RandomSource { draws, pos: 0 }
    }

    /// Takes the next raw draw and advances the cursor.
    pub fn next(&mut self) -> (r: u64)
        requires
            old(self).wf(),
        ensures
            final(self).seq() == old(self).seq(),
            final(self).position() == next_pos(old(self).seq(), old(self).position()),
            final(self).wf(),
            r == raw_at(old(self).seq(), old(self).position()),
    {
        if self.pos < self.draws.len() {
            let r = self.draws[self.pos];
            self.pos = self.pos + 1;
            r
        } else {
            0
        }
    }
}

/// Relies on rand::random: one uniformly random 64-bit value. Nothing can be
/// promised of a random result.
#[verifier::external_body]
fn random_u64() -> u64 {
    rand::random::<u64>()
}

/// The geometric transform of one raw draw: the number of trailing zero bits,
/// i.e. the count of failed coin flips before the first success, so that a
/// uniformly random argument yields `k` with probability `2^-(k+1)` (and 64
/// only for the all-zero draw).
pub open spec fn spec_geometric(raw: u64, k: nat) -> nat
    decreases 64 - k,
{
    if k >= 64 {
        64
    } else if (raw >> (k as u64)) & 1 == 1 {
        k
    } else {
        spec_geometric(raw, k + 1)
    }
}

/// Memoryless geometric value of one raw draw (success probability 1/2).
pub fn geometric(raw: u64) -> (r: u64)
    ensures
        r == spec_geometric(raw, 0),
        r <= 64,
{
    let mut k: u64 = 0;
    while k < 64
        invariant
            k <= 64,
            spec_geometric(raw, 0) == spec_geometric(raw, k as nat),
        decreases 64 - k,
    {
        if (raw >> k) & 1 == 1 {
            return k;
        }
        k = k + 1;
    }
    64
}

/// The value of one raw draw reduced to the closed interval `[min, max]`.
pub open spec fn spec_uniform_in(raw: u64, min: u64, max: u64) -> u64 {
    if min == 0 && max == u64::MAX {
        raw
    } else if min <= max {
        (min as int + (raw as int) % (max as int - min as int + 1)) as u64
    } else {
        min
    }
}

/// Reduces one raw draw to the closed interval `[min, max]`.
pub fn uniform_in(raw: u64, min: u64, max: u64) -> (r: u64)
    requires
        min <= max,
    ensures
        r == spec_uniform_in(raw, min, max),
        min <= r <= max,
{
    if min == 0 && max == u64::MAX {
        raw
    } else {
        min + raw % (max - min + 1)
    }
}

/// Every uniform reduction lands in the requested interval: with `min == max`
/// the result is exactly `min`, and in general it lies in `[min, max]`.
pub proof fn lemma_uniform_in_bounds(raw: u64, min: u64, max: u64)
    requires
        min <= max,
    ensures
        min <= spec_uniform_in(raw, min, max) <= max,
        min == max ==> spec_uniform_in(raw, min, max) == min,
{
}

} // verus!
