//! How well the player has learned each character, as review tiers.

use vstd::prelude::*;
use crate::text::str_eq;

verus! {

/// Mastery tiers recorded per character; a character with no record is at
/// tier 0.
#[derive(Clone, Debug)]
pub struct SrsTracker {
    pub tiers: Vec<(&'static str, u8)>,
}

/// Tier of `hanzi` in `tiers`: the first record for it, else 0.
pub open spec fn tier_in(tiers: Seq<(&'static str, u8)>, hanzi: Seq<char>) -> u8
    decreases tiers.len(),
{
    if tiers.len() == 0 {
        0
    } else if tiers[0].0@ == hanzi {
        tiers[0].1
    } else {
        tier_in(tiers.drop_first(), hanzi)
    }
}

impl SrsTracker {
    /// A tracker with nothing learned yet.
    pub fn new() -> (t: SrsTracker)
        ensures
            t.tiers@.len() == 0,
    {
        SrsTracker { tiers: Vec::new() }
    }

    /// Mastery tier of `hanzi`.
    pub fn mastery_tier(&self, hanzi: &str) -> (tier: u8)
        ensures
            tier == tier_in(self.tiers@, hanzi@),
    {
        let mut i: usize = 0;
        assert(self.tiers@.subrange(0, self.tiers@.len() as int) =~= self.tiers@);
        while i < self.tiers.len()
            invariant
                i <= self.tiers@.len(),
                tier_in(self.tiers@, hanzi@) == tier_in(self.tiers@.subrange(i as int, self.tiers@.len() as int), hanzi@),
            decreases self.tiers@.len() - i,
        {
            let ghost rest = self.tiers@.subrange(i as int, self.tiers@.len() as int);
            assert(rest.drop_first() =~= self.tiers@.subrange(i + 1, self.tiers@.len() as int));
            if str_eq(self.tiers[i].0, hanzi) {
                return self.tiers[i].1;
            }
            i += 1;
        }
        0
    }
}

} // verus!
