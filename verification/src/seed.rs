//! Reward-token groups and their farm counters.

use vstd::prelude::*;

verus! {

pub type SeedId = String;

/// One reward-token group. `next_index` is the index the next farm created
/// under this seed will receive.
pub struct Seed {
    pub seed_id: SeedId,
    pub next_index: u32,
}

impl Seed {
    pub fn new(seed_id: SeedId) -> (r: Self)
        ensures
            r.seed_id == seed_id,
            r.next_index == 0,
    {
        Self { seed_id, next_index: 0 }
    }
}

} // verus!
