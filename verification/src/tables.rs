//! Balance data of the two upgrade tracks: what mastery steps cost, which
//! enhancement levels cost rare currencies, and the mastery an enhancement
//! level asks for.
use vstd::prelude::*;

verus! {

/// The balance data the allocation runs on. Mastery tables are indexed by
/// the mastery level reached minus one (levels 1 to 20); enhancement tables
/// by the enhancement level reached minus 101 (levels 101 to 200).
#[derive(Clone, Copy, Debug)]
pub struct UpgradeTables {
    /// Hammers for each mastery step.
    pub hammer: [u32; 20],
    /// Mythics for each mastery step.
    pub mastery_mythic: [u32; 20],
    /// Mythril due on reaching each enhancement level past 100.
    pub mythril: [u32; 100],
    /// Mythics due on reaching each enhancement level past 100.
    pub mythic: [u32; 100],
    /// Mastery that each enhancement level past 100 asks for.
    pub required_mastery: [i32; 100],
}

impl UpgradeTables {
    /// Hammers for the step from `mastery - 1` to `mastery`; zero where there
    /// is no such step.
    pub open spec fn hammer_cost_spec(&self, mastery: int) -> int {
        if 1 <= mastery <= 20 {
            self.hammer@[mastery - 1] as int
        } else {
            0
        }
    }

    /// Mythics for the step from `mastery - 1` to `mastery`; zero where there
    /// is no such step.
    pub open spec fn mastery_mythic_cost_spec(&self, mastery: int) -> int {
        if 1 <= mastery <= 20 {
            self.mastery_mythic@[mastery - 1] as int
        } else {
            0
        }
    }

    /// Mythril due on reaching an enhancement level; zero up to level 100 and
    /// past 200.
    pub open spec fn mythril_cost_spec(&self, level: int) -> int {
        if 101 <= level <= 200 {
            self.mythril@[level - 101] as int
        } else {
            0
        }
    }

    /// Mythics due on reaching an enhancement level; zero up to level 100 and
    /// past 200.
    pub open spec fn mythic_cost_spec(&self, level: int) -> int {
        if 101 <= level <= 200 {
            self.mythic@[level - 101] as int
        } else {
            0
        }
    }

    /// Mastery a slot must hold to stand at an enhancement level; zero up to
    /// level 100.
    pub open spec fn required_mastery_spec(&self, level: int) -> int {
        if 101 <= level <= 200 {
            self.required_mastery@[level - 101] as int
        } else {
            0
        }
    }

    /// Hammers for raising mastery from `from` to `to`, step by step.
    pub open spec fn hammers_between(&self, from: int, to: int) -> int
        decreases to - from,
    {
        if to <= from {
            0
        } else {
            self.hammers_between(from, to - 1) + self.hammer_cost_spec(to)
        }
    }

    /// Mythics for raising mastery from `from` to `to`, step by step.
    pub open spec fn mythics_between(&self, from: int, to: int) -> int
        decreases to - from,
    {
        if to <= from {
            0
        } else {
            self.mythics_between(from, to - 1) + self.mastery_mythic_cost_spec(to)
        }
    }

    /// The required mastery is a mastery level and never falls as the
    /// enhancement level rises; mythril is due only at multiples of 20 from
    /// level 120 on.
    pub open spec fn wf(&self) -> bool {
        &&& forall|k: int| 0 <= k < 100 ==> 0 <= #[trigger] self.required_mastery@[k] <= 20
        &&& forall|k: int|
            0 <= k < 99 ==> self.required_mastery@[k] <= #[trigger] self.required_mastery@[k + 1]
        &&& forall|k: int|
            0 <= k < 100 && #[trigger] self.mythril@[k] != 0 ==> k >= 19 && (k + 101) % 20 == 0
    }

    /// Tests at run time what `wf` states.
    pub fn is_well_formed(&self) -> (ok: bool)
        ensures
            ok == self.wf(),
    {
        let mut k: usize = 0;
        while k < 100
            invariant
                k <= 100,
                forall|j: int| 0 <= j < k ==> 0 <= #[trigger] self.required_mastery@[j] <= 20,
                forall|j: int|
                    0 <= j < k && j < 99 ==> self.required_mastery@[j]
                        <= #[trigger] self.required_mastery@[j + 1],
                forall|j: int|
                    0 <= j < k && #[trigger] self.mythril@[j] != 0 ==> j >= 19 && (j + 101) % 20
                        == 0,
            decreases 100 - k,
        {
            let need = self.required_mastery[k];
            if need < 0 || need > 20 {
                return false;
            }
            if k < 99 && need > self.required_mastery[k + 1] {
                return false;
            }
            if self.mythril[k] != 0 && (k < 19 || (k + 101) % 20 != 0) {
                return false;
            }
            k += 1;
        }
        true
    }

    pub fn hammer_cost(&self, mastery: i32) -> (cost: u32)
        ensures
            cost == self.hammer_cost_spec(mastery as int),
    {
        if 1 <= mastery && mastery <= 20 {
            self.hammer[(mastery - 1) as usize]
        } else {
            0
        }
    }

    pub fn mastery_mythic_cost(&self, mastery: i32) -> (cost: u32)
        ensures
            cost == self.mastery_mythic_cost_spec(mastery as int),
    {
        if 1 <= mastery && mastery <= 20 {
            self.mastery_mythic[(mastery - 1) as usize]
        } else {
            0
        }
    }

    pub fn mythril_cost(&self, level: i32) -> (cost: u32)
        ensures
            cost == self.mythril_cost_spec(level as int),
    {
        if 101 <= level && level <= 200 {
            self.mythril[(level - 101) as usize]
        } else {
            0
        }
    }

    pub fn mythic_cost(&self, level: i32) -> (cost: u32)
        ensures
            cost == self.mythic_cost_spec(level as int),
    {
        if 101 <= level && level <= 200 {
            self.mythic[(level - 101) as usize]
        } else {
            0
        }
    }

    pub fn required_mastery(&self, level: i32) -> (mastery: i32)
        ensures
            mastery == self.required_mastery_spec(level as int),
    {
        if 101 <= level && level <= 200 {
            self.required_mastery[(level - 101) as usize]
        } else {
            0
        }
    }

    /// Hammers and mythics for raising mastery from `from` to `to`.
    pub fn mastery_range_cost(&self, from: i32, to: i32) -> (cost: (u64, u64))
        requires
            0 <= from <= to <= 20,
        ensures
            cost.0 == self.hammers_between(from as int, to as int),
            cost.1 == self.mythics_between(from as int, to as int),
    {
        let mut hammers: u64 = 0;
        let mut mythics: u64 = 0;
        let mut level: i32 = from;
        while level < to
            invariant
                0 <= from <= level <= to <= 20,
                hammers == self.hammers_between(from as int, level as int),
                mythics == self.mythics_between(from as int, level as int),
                hammers <= (level - from) * 0xffff_ffff,
                mythics <= (level - from) * 0xffff_ffff,
            decreases to - level,
        {
            level += 1;
            hammers += self.hammer_cost(level) as u64;
            mythics += self.mastery_mythic_cost(level) as u64;
        }
        (hammers, mythics)
    }

    /// Up to the highest enhancement level the required mastery never falls
    /// as the level rises.
    pub proof fn lemma_required_mastery_monotone(&self, low: int, high: int)
        requires
            self.wf(),
            low <= high <= 200,
        ensures
            0 <= self.required_mastery_spec(low) <= self.required_mastery_spec(high) <= 20,
        decreases high - low,
    {
        if low < high {
            self.lemma_required_mastery_monotone(low, high - 1);
            if 101 < high <= 200 {
                assert(self.required_mastery@[high - 102] <= self.required_mastery@[high - 102 + 1]);
            }
        }
        if 101 <= high <= 200 {
            assert(0 <= self.required_mastery@[high - 101] <= 20);
        }
    }

    /// Raising mastery costs nothing negative, and at most `u32::MAX` of each
    /// currency per step.
    pub proof fn lemma_between_bounds(&self, from: int, to: int)
        requires
            from <= to,
        ensures
            0 <= self.hammers_between(from, to) <= (to - from) * 0xffff_ffff,
            0 <= self.mythics_between(from, to) <= (to - from) * 0xffff_ffff,
        decreases to - from,
    {
        if from < to {
            self.lemma_between_bounds(from, to - 1);
        }
    }

    /// Raising mastery by at least one level costs at least what the first
    /// of its steps costs.
    pub proof fn lemma_between_first_step(&self, from: int, to: int)
        requires
            from < to,
        ensures
            self.hammers_between(from, to) >= self.hammer_cost_spec(from + 1),
            self.mythics_between(from, to) >= self.mastery_mythic_cost_spec(from + 1),
        decreases to - from,
    {
        if from + 1 < to {
            self.lemma_between_first_step(from, to - 1);
        } else {
            assert(self.hammers_between(from, from) == 0);
            assert(self.mythics_between(from, from) == 0);
        }
    }
}

} // verus!
