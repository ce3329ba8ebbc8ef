//! Small xorshift64 pseudo-random generator shared by all generators.

use vstd::prelude::*;

verus! {

/// One xorshift64 step (shifts 13, 7, 17).
pub open spec fn xorshift(x: u64) -> u64 {
    let a = x ^ (x << 13u64);
    let b = a ^ (a >> 7u64);
    b ^ (b << 17u64)
}

/// The state a generator starts in for a given seed (zero is replaced by one).
pub open spec fn seed_state(seed: u64) -> u64 {
    if seed == 0 { 1 } else { seed }
}

/// The value `range(lo, hi)` yields when the generator's next raw output is `raw`.
pub open spec fn range_value(raw: u64, lo: i32, hi: i32) -> int {
    if hi <= lo { lo as int } else { lo + (raw % ((hi - lo) as u64)) as int }
}

/// Simple PRNG (xorshift64) so that generation needs no outside crate.
pub struct Rng(u64);

impl View for Rng {
    type V = u64;

    closed spec fn view(&self) -> u64 {
        self.0
    }
}

impl Rng {
    pub fn new(seed: u64) -> (r: Self)
        ensures
            r@ == seed_state(seed),
    {
        Rng(if seed == 0 { 1 } else { seed })
    }

    pub fn next_u64(&mut self) -> (r: u64)
        ensures
            r == xorshift(old(self)@),
            final(self)@ == r,
    {
        let mut x = self.0;
        x = x ^ (x << 13u64);
        x = x ^ (x >> 7u64);
        x = x ^ (x << 17u64);
        self.0 = x;
        x
    }

    /// Random i32 in `[lo, hi)`; returns `lo` without drawing when `hi <= lo`.
    pub fn range(&mut self, lo: i32, hi: i32) -> (r: i32)
        requires
            hi <= lo || hi - lo <= i32::MAX,
        ensures
            hi <= lo ==> r == lo && final(self)@ == old(self)@,
            lo < hi ==> final(self)@ == xorshift(old(self)@),
            r == range_value(final(self)@, lo, hi),
            lo < hi ==> lo <= r < hi,
    {
        if hi <= lo {
            return lo;
        }
        let span = (hi - lo) as u64;
        let raw = self.next_u64();
        let off = raw % span;
        lo + off as i32
    }
}

/// Whatever state the generator is in, a non-empty range yields a value inside it.
pub proof fn lemma_range_in_bounds(state: u64, lo: i32, hi: i32)
    requires
        lo < hi,
    ensures
        lo <= range_value(xorshift(state), lo, hi) < hi,
{
}

} // verus!
