//! The request and response data of the solver.
//!
//! Scores are exact fixed-point integers: a stat value is counted in units of
//! `1 / STAT_SCALE`, and a score is a stat value times an integer weight.
use vstd::prelude::*;

verus! {

/// One piece of equipment: its mastery and enhancement levels.
#[derive(Clone, Copy, Debug, PartialEq, Eq)]
pub struct Gear {
    pub mastery: i32,
    pub enhancement: i32,
}

/// The four pieces a hero wears, in roster order.
#[derive(Clone, Copy, Debug, PartialEq, Eq)]
pub struct HeroGear {
    pub helmet: Gear,
    pub gloves: Gear,
    pub breastplate: Gear,
    pub boots: Gear,
}

/// How much a hero values each of the two stats. Only the ratios between
/// weights matter to the allocation.
#[derive(Clone, Copy, Debug, PartialEq, Eq)]
pub struct StatWeights {
    pub lethality: u32,
    pub health: u32,
}

/// A hero of the request: name, gear and weights.
#[derive(Clone, Debug)]
pub struct HeroWeights {
    pub name: String,
    pub gear: HeroGear,
    pub weights: StatWeights,
}

/// The two stats of a hero, each the sum over the two pieces that feed it,
/// in units of `1 / STAT_SCALE`.
#[derive(Clone, Copy, Debug, PartialEq, Eq)]
pub struct Stats {
    pub lethality: i128,
    pub health: i128,
}

/// Levels of one piece before and after the allocation.
#[derive(Clone, Debug)]
pub struct GearResult {
    pub gear_type: String,
    pub current_mastery: i32,
    pub recommended_mastery: i32,
    pub current_enhancement: i32,
    pub recommended_enhancement: i32,
}

/// What the allocation does for one hero.
#[derive(Clone, Debug)]
pub struct OptimizationResult {
    pub hero_name: String,
    pub gear: Vec<GearResult>,
    pub before_stats: Stats,
    pub after_stats: Stats,
    pub before_score: i128,
    pub after_score: i128,
}

/// The response: one result per hero, in request order, and the two totals.
#[derive(Clone, Debug)]
pub struct OptimizationOutput {
    pub results: Vec<OptimizationResult>,
    pub total_before_score: i128,
    pub total_after_score: i128,
}

/// The request: the heroes and the four resource balances.
#[derive(Clone, Debug)]
pub struct InputData {
    pub heroes: Vec<HeroWeights>,
    pub exp: i32,
    pub hammers: i32,
    pub mythics: i32,
    pub mythril: i32,
}

impl Gear {
    /// Both levels lie in their ranges.
    pub open spec fn wf(&self) -> bool {
        &&& 0 <= self.enhancement <= 200
        &&& 0 <= self.mastery <= 20
    }

    pub fn is_valid(&self) -> (ok: bool)
        ensures
            ok == self.wf(),
    {
        0 <= self.enhancement && self.enhancement <= 200 && 0 <= self.mastery && self.mastery <= 20
    }
}

impl HeroGear {
    pub open spec fn wf(&self) -> bool {
        &&& self.helmet.wf()
        &&& self.gloves.wf()
        &&& self.breastplate.wf()
        &&& self.boots.wf()
    }

    /// The piece at a position of the roster order: helmet, gloves,
    /// breastplate, boots.
    pub open spec fn piece(&self, position: int) -> Gear {
        if position == 0 {
            self.helmet
        } else if position == 1 {
            self.gloves
        } else if position == 2 {
            self.breastplate
        } else {
            self.boots
        }
    }

    pub fn is_valid(&self) -> (ok: bool)
        ensures
            ok == self.wf(),
    {
        self.helmet.is_valid() && self.gloves.is_valid() && self.breastplate.is_valid()
            && self.boots.is_valid()
    }
}

impl InputData {
    /// No balance is negative.
    pub open spec fn balances_wf(&self) -> bool {
        &&& self.exp >= 0
        &&& self.hammers >= 0
        &&& self.mythics >= 0
        &&& self.mythril >= 0
    }

    /// Every level of every hero lies in its range.
    pub open spec fn levels_wf(&self) -> bool {
        forall|i: int| 0 <= i < self.heroes@.len() ==> (#[trigger] self.heroes@[i]).gear.wf()
    }

    /// No balance is negative and every level lies in its range.
    pub open spec fn wf(&self) -> bool {
        &&& self.balances_wf()
        &&& self.levels_wf()
    }

    pub fn has_valid_balances(&self) -> (ok: bool)
        ensures
            ok == self.balances_wf(),
    {
        self.exp >= 0 && self.hammers >= 0 && self.mythics >= 0 && self.mythril >= 0
    }

    pub fn has_valid_levels(&self) -> (ok: bool)
        ensures
            ok == self.levels_wf(),
    {
        let mut i: usize = 0;
        while i < self.heroes.len()
            invariant
                i <= self.heroes@.len(),
                forall|j: int| 0 <= j < i ==> (#[trigger] self.heroes@[j]).gear.wf(),
            decreases self.heroes@.len() - i,
        {
            if !self.heroes[i].gear.is_valid() {
                return false;
            }
            i += 1;
        }
        true
    }

    pub fn is_valid(&self) -> (ok: bool)
        ensures
            ok == self.wf(),
    {
        self.has_valid_balances() && self.has_valid_levels()
    }
}

} // verus!
