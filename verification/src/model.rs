//! The rules of the allocation as mathematics: slots and resources over the
//! integers, the price and the efficiency of a step, the round, and the
//! allocation that the rounds end in, with what holds of it.
use crate::efficiency::{best_of, lemma_best_of, Ratio};
use crate::tables::UpgradeTables;
use crate::valuation::{
    exp_cost_spec, lemma_exp_cost_step, lemma_stat_bounds, lemma_stat_monotone, stat_spec,
};
use vstd::prelude::*;

verus! {


/// The two upgrade tracks of a slot.
#[derive(Clone, Copy, Debug, PartialEq, Eq)]
pub enum Track {
    Enhancement,
    Mastery,
}

/// A slot of the roster as the rules see it.
pub struct SlotModel {
    pub is_lethality: bool,
    pub mastery: int,
    pub enhancement: int,
    pub weight_lethality: int,
    pub weight_health: int,
}

impl SlotModel {
    pub open spec fn wf(self) -> bool {
        &&& 0 <= self.enhancement <= 200
        &&& 0 <= self.mastery <= 20
        &&& 0 <= self.weight_lethality <= u32::MAX
        &&& 0 <= self.weight_health <= u32::MAX
    }

    /// The weight of the stat that the slot feeds.
    pub open spec fn weight(self) -> int {
        if self.is_lethality {
            self.weight_lethality
        } else {
            self.weight_health
        }
    }

    /// Levels the slot can still gain on both tracks together.
    pub open spec fn headroom(self) -> int {
        (200 - self.enhancement) + (20 - self.mastery)
    }

    /// The experience that stands in the slot's enhancement level.
    pub open spec fn invested(self) -> int {
        exp_cost_spec(self.enhancement)
    }

    /// The slot's stat value times its weight.
    pub open spec fn score(self) -> int {
        self.weight() * stat_spec(self.enhancement, self.mastery)
    }

    /// `later` is this slot after zero or more steps: same owner and stat,
    /// no level lower.
    pub open spec fn grows_to(self, later: SlotModel) -> bool {
        &&& later.is_lethality == self.is_lethality
        &&& later.weight_lethality == self.weight_lethality
        &&& later.weight_health == self.weight_health
        &&& self.enhancement <= later.enhancement
        &&& self.mastery <= later.mastery
    }
}

/// Amounts of the four resources: a budget, or the cost of a step.
pub struct Resources {
    pub exp: int,
    pub hammers: int,
    pub mythril: int,
    pub mythics: int,
}

impl Resources {
    pub open spec fn wf(self) -> bool {
        &&& self.exp >= 0
        &&& self.hammers >= 0
        &&& self.mythril >= 0
        &&& self.mythics >= 0
    }

    /// Every amount of `cost` is within this budget.
    pub open spec fn covers(self, cost: Resources) -> bool {
        &&& cost.exp <= self.exp
        &&& cost.hammers <= self.hammers
        &&& cost.mythril <= self.mythril
        &&& cost.mythics <= self.mythics
    }

    pub open spec fn minus(self, cost: Resources) -> Resources {
        Resources {
            exp: self.exp - cost.exp,
            hammers: self.hammers - cost.hammers,
            mythril: self.mythril - cost.mythril,
            mythics: self.mythics - cost.mythics,
        }
    }
}

/// The slot has a next level on the track.
pub open spec fn step_open(track: Track, slot: SlotModel) -> bool {
    match track {
        Track::Enhancement => slot.enhancement < 200,
        Track::Mastery => slot.mastery < 20,
    }
}

/// The slot after its next step on the track. An enhancement step past level
/// 100 also raises mastery to what the new level requires.
pub open spec fn step_target(track: Track, slot: SlotModel, tables: UpgradeTables) -> SlotModel {
    match track {
        Track::Enhancement => {
            let required = tables.required_mastery_spec(slot.enhancement + 1);
            SlotModel {
                enhancement: slot.enhancement + 1,
                mastery: if slot.mastery < required { required } else { slot.mastery },
                ..slot
            }
        },
        Track::Mastery => SlotModel { mastery: slot.mastery + 1, ..slot },
    }
}

/// What the next step on the track takes. An enhancement step takes the
/// experience between the two levels, the rare currencies due at the new
/// level, and the whole cost of the mastery it has to raise.
pub open spec fn step_cost(track: Track, slot: SlotModel, tables: UpgradeTables) -> Resources {
    match track {
        Track::Enhancement => {
            let target = step_target(track, slot, tables);
            Resources {
                exp: exp_cost_spec(target.enhancement) - exp_cost_spec(slot.enhancement),
                hammers: tables.hammers_between(slot.mastery, target.mastery),
                mythril: tables.mythril_cost_spec(target.enhancement),
                mythics: tables.mythic_cost_spec(target.enhancement) + tables.mythics_between(
                    slot.mastery,
                    target.mastery,
                ),
            }
        },
        Track::Mastery => Resources {
            exp: 0,
            hammers: tables.hammer_cost_spec(slot.mastery + 1),
            mythril: 0,
            mythics: tables.mastery_mythic_cost_spec(slot.mastery + 1),
        },
    }
}

/// The weighted stat value that the next step adds.
pub open spec fn step_gain(track: Track, slot: SlotModel, tables: UpgradeTables) -> int {
    let target = step_target(track, slot, tables);
    slot.weight() * (stat_spec(target.enhancement, target.mastery) - stat_spec(
        slot.enhancement,
        slot.mastery,
    ))
}

/// The efficiency of the next step: its gain per unit of the track's own
/// currency, experience for enhancement and hammers for mastery.
pub open spec fn step_ratio(track: Track, slot: SlotModel, tables: UpgradeTables) -> Ratio {
    let cost = step_cost(track, slot, tables);
    Ratio {
        gain: step_gain(track, slot, tables),
        cost: match track {
            Track::Enhancement => cost.exp,
            Track::Mastery => cost.hammers,
        },
    }
}

/// The efficiency of the next step where the slot has one and the budget
/// covers it, else `None`.
pub open spec fn step_key(
    track: Track,
    slot: SlotModel,
    budget: Resources,
    tables: UpgradeTables,
) -> Option<Ratio> {
    if step_open(track, slot) && budget.covers(step_cost(track, slot, tables)) {
        Some(step_ratio(track, slot, tables))
    } else {
        None
    }
}

/// The sum of a measure over the slots of a roster.
pub open spec fn sum_over(slots: Seq<SlotModel>, measure: spec_fn(SlotModel) -> int) -> int
    decreases slots.len(),
{
    if slots.len() == 0 {
        0
    } else {
        sum_over(slots.drop_last(), measure) + measure(slots.last())
    }
}

/// A roster with the budget left to spend on it.
pub struct Allocation {
    pub slots: Seq<SlotModel>,
    pub budget: Resources,
}

impl Allocation {
    pub open spec fn wf(self) -> bool {
        &&& self.budget.wf()
        &&& forall|i: int| 0 <= i < self.slots.len() ==> (#[trigger] self.slots[i]).wf()
    }

    /// One key per slot: the efficiency of its next step on the track, where
    /// it has one that the budget covers.
    pub open spec fn keys(self, track: Track, tables: UpgradeTables) -> Seq<Option<Ratio>> {
        Seq::new(self.slots.len(), |i: int| step_key(track, self.slots[i], self.budget, tables))
    }

    /// The slot whose next step on the track the round selects: the earliest
    /// of greatest efficiency among the steps the budget covers.
    pub open spec fn pick(self, track: Track, tables: UpgradeTables) -> Option<int> {
        best_of(self.keys(track, tables))
    }

    /// The allocation after slot `i` has taken its next step on the track.
    pub open spec fn apply(self, track: Track, i: int, tables: UpgradeTables) -> Allocation {
        Allocation {
            slots: self.slots.update(i, step_target(track, self.slots[i], tables)),
            budget: self.budget.minus(step_cost(track, self.slots[i], tables)),
        }
    }

    /// The allocation after the enhancement pick of a round, if there is one.
    pub open spec fn after_enhancement(self, tables: UpgradeTables) -> Allocation {
        match self.pick(Track::Enhancement, tables) {
            Some(i) => self.apply(Track::Enhancement, i, tables),
            None => self,
        }
    }

    /// Whether the mastery pick `j` of this allocation can still be committed
    /// once the enhancement pick of the same round has led to `current`: the
    /// slot's mastery is as it was and the balance still covers the step.
    pub open spec fn mastery_stands(self, j: int, current: Allocation, tables: UpgradeTables) -> bool {
        &&& current.slots[j].mastery == self.slots[j].mastery
        &&& current.budget.covers(step_cost(Track::Mastery, self.slots[j], tables))
    }

    /// One round: both picks are made on this allocation; the enhancement
    /// pick is committed, then the mastery pick where it still stands.
    pub open spec fn round(self, tables: UpgradeTables) -> Allocation {
        let first = self.after_enhancement(tables);
        match self.pick(Track::Mastery, tables) {
            Some(j) => if self.mastery_stands(j, first, tables) {
                first.apply(Track::Mastery, j, tables)
            } else {
                first
            },
            None => first,
        }
    }

    /// Neither track has a step that the budget covers.
    pub open spec fn is_settled(self, tables: UpgradeTables) -> bool {
        &&& self.pick(Track::Enhancement, tables) is None
        &&& self.pick(Track::Mastery, tables) is None
    }

    /// Levels that the roster can still gain.
    pub open spec fn headroom(self) -> int {
        sum_over(self.slots, |slot: SlotModel| slot.headroom())
    }

    /// The experience that stands in the roster's enhancement levels.
    pub open spec fn invested(self) -> int {
        sum_over(self.slots, |slot: SlotModel| slot.invested())
    }

    /// The weighted score of the roster.
    pub open spec fn score(self) -> int {
        sum_over(self.slots, |slot: SlotModel| slot.score())
    }

    /// From this allocation to `later` no experience is lost: what left the
    /// balance stands in the roster.
    pub open spec fn conserves_exp(self, later: Allocation) -> bool {
        later.budget.exp + later.invested() == self.budget.exp + self.invested()
    }

    /// `later` comes from this allocation by steps alone: the same slots,
    /// none at a lower level, and no balance higher.
    pub open spec fn leads_to(self, later: Allocation) -> bool {
        &&& later.slots.len() == self.slots.len()
        &&& forall|i: int|
            0 <= i < self.slots.len() ==> self.slots[i].grows_to(#[trigger] later.slots[i])
        &&& self.budget.covers(later.budget)
    }

    /// The allocation that the rounds end in.
    pub open spec fn run(self, tables: UpgradeTables) -> Allocation
        decreases self.headroom(),
        when self.wf() && tables.wf()
        via Self::run_decreases
    {
        if self.is_settled(tables) {
            self
        } else {
            self.round(tables).run(tables)
        }
    }

    #[via_fn]
    proof fn run_decreases(self, tables: UpgradeTables) {
        if !self.is_settled(tables) {
            self.lemma_round(tables);
            self.round(tables).lemma_headroom_nonnegative();
        }
    }

    /// Every key of a well-formed allocation is a well-formed ratio.
    pub proof fn lemma_keys_wf(self, track: Track, tables: UpgradeTables)
        requires
            self.wf(),
            tables.wf(),
        ensures
            forall|j: int|
                0 <= j < self.slots.len() && (#[trigger] self.keys(track, tables)[j]) is Some
                    ==> self.keys(track, tables)[j]->0.wf(),
    {
        assert forall|j: int|
            0 <= j < self.slots.len() && (#[trigger] self.keys(track, tables)[j]) is Some implies self.keys(
            track,
            tables,
        )[j]->0.wf() by {
            lemma_step(track, self.slots[j], tables);
        }
    }

    /// The pick of a track is a slot with a step that the budget covers, and
    /// there is a pick as soon as one slot has such a step.
    pub proof fn lemma_pick(self, track: Track, tables: UpgradeTables)
        requires
            self.wf(),
            tables.wf(),
        ensures
            self.pick(track, tables) matches Some(i) ==> 0 <= i < self.slots.len() && step_key(
                track,
                self.slots[i],
                self.budget,
                tables,
            ) is Some,
            self.pick(track, tables) is None <==> forall|j: int|
                0 <= j < self.slots.len() ==> step_key(
                    track,
                    #[trigger] self.slots[j],
                    self.budget,
                    tables,
                ) is None,
    {
        let keys = self.keys(track, tables);
        self.lemma_keys_wf(track, tables);
        lemma_best_of(keys);
        if self.pick(track, tables) is None {
            assert forall|j: int| 0 <= j < self.slots.len() implies step_key(
                track,
                #[trigger] self.slots[j],
                self.budget,
                tables,
            ) is None by {
                assert(keys[j] is None);
            }
        } else {
            let i = self.pick(track, tables)->0;
            assert(keys[i] is Some);
        }
    }

    /// Committing a step that the budget covers keeps the allocation well
    /// formed, lowers no level, raises no balance, and uses up headroom. The
    /// experience it takes goes into the roster, and the score does not fall.
    pub proof fn lemma_apply(self, track: Track, i: int, tables: UpgradeTables)
        requires
            self.wf(),
            tables.wf(),
            0 <= i < self.slots.len(),
            step_key(track, self.slots[i], self.budget, tables) is Some,
        ensures
            self.apply(track, i, tables).wf(),
            self.leads_to(self.apply(track, i, tables)),
            self.apply(track, i, tables).headroom() < self.headroom(),
            self.conserves_exp(self.apply(track, i, tables)),
            self.apply(track, i, tables).score() == self.score() + step_gain(
                track,
                self.slots[i],
                tables,
            ),
            self.apply(track, i, tables).score() >= self.score(),
    {
        let slot = self.slots[i];
        let target = step_target(track, slot, tables);
        lemma_step(track, slot, tables);
        lemma_sum_update(self.slots, |slot: SlotModel| slot.headroom(), i, target);
        lemma_sum_update(self.slots, |slot: SlotModel| slot.invested(), i, target);
        lemma_sum_update(self.slots, |slot: SlotModel| slot.score(), i, target);
        let weight = slot.weight();
        let (before, after) = (
            stat_spec(slot.enhancement, slot.mastery),
            stat_spec(target.enhancement, target.mastery),
        );
        assert(weight * after - weight * before == weight * (after - before))
            by (nonlinear_arith);
    }

    /// A round keeps the allocation well formed: no balance falls below zero
    /// and no level leaves its range. It lowers no level, raises no balance,
    /// loses no experience and does not lower the score. Unless the
    /// allocation is settled it uses up headroom.
    pub proof fn lemma_round(self, tables: UpgradeTables)
        requires
            self.wf(),
            tables.wf(),
        ensures
            self.round(tables).wf(),
            self.leads_to(self.round(tables)),
            self.conserves_exp(self.round(tables)),
            self.round(tables).score() >= self.score(),
            self.is_settled(tables) ==> self.round(tables) == self,
            !self.is_settled(tables) ==> self.round(tables).headroom() < self.headroom(),
    {
        let first = self.after_enhancement(tables);
        self.lemma_pick(Track::Enhancement, tables);
        self.lemma_pick(Track::Mastery, tables);
        if let Some(i) = self.pick(Track::Enhancement, tables) {
            self.lemma_apply(Track::Enhancement, i, tables);
        }
        if let Some(j) = self.pick(Track::Mastery, tables) {
            if self.mastery_stands(j, first, tables) {
                assert(step_key(Track::Mastery, first.slots[j], first.budget, tables) is Some);
                first.lemma_apply(Track::Mastery, j, tables);
            } else {
                assert(self.pick(Track::Enhancement, tables) is Some);
            }
        }
    }

    /// The rounds end in a settled allocation that is well formed, with no
    /// level lower and no balance higher than at the start. No balance is
    /// below zero, no level is out of its range, no experience is lost, and
    /// the score has not fallen.
    pub proof fn lemma_run(self, tables: UpgradeTables)
        requires
            self.wf(),
            tables.wf(),
        ensures
            self.run(tables).wf(),
            self.run(tables).is_settled(tables),
            self.leads_to(self.run(tables)),
            self.conserves_exp(self.run(tables)),
            self.run(tables).score() >= self.score(),
        decreases self.headroom(),
    {
        if !self.is_settled(tables) {
            self.lemma_round(tables);
            self.round(tables).lemma_headroom_nonnegative();
            self.round(tables).lemma_run(tables);
        }
    }

    /// A well-formed allocation has no negative headroom.
    pub proof fn lemma_headroom_nonnegative(self)
        requires
            self.wf(),
        ensures
            self.headroom() >= 0,
    {
        lemma_sum_nonnegative(self.slots, |slot: SlotModel| slot.headroom());
    }

    /// A round leaves the enhancement level of a slot as it is where the slot
    /// has no enhancement step that the budget covers, and the whole slot
    /// where it has no such step on either track.
    pub proof fn lemma_round_passes_over(self, tables: UpgradeTables, i: int)
        requires
            self.wf(),
            tables.wf(),
            0 <= i < self.slots.len(),
            step_key(Track::Enhancement, self.slots[i], self.budget, tables) is None,
        ensures
            self.round(tables).slots[i].enhancement == self.slots[i].enhancement,
            step_key(Track::Mastery, self.slots[i], self.budget, tables) is None ==> self.round(
                tables,
            ).slots[i] == self.slots[i],
    {
        self.lemma_pick(Track::Enhancement, tables);
        self.lemma_pick(Track::Mastery, tables);
    }

    /// The mastery gate: a slot whose next enhancement level requires more
    /// mastery than it holds, while the hammers do not cover its next mastery
    /// step, ends as it started.
    pub proof fn lemma_gate_holds(self, tables: UpgradeTables, i: int)
        requires
            self.wf(),
            tables.wf(),
            0 <= i < self.slots.len(),
            self.slots[i].mastery < tables.required_mastery_spec(self.slots[i].enhancement + 1),
            self.budget.hammers < tables.hammer_cost_spec(self.slots[i].mastery + 1),
        ensures
            self.run(tables).slots[i] == self.slots[i],
        decreases self.headroom(),
    {
        if !self.is_settled(tables) {
            let slot = self.slots[i];
            tables.lemma_between_first_step(
                slot.mastery,
                tables.required_mastery_spec(slot.enhancement + 1),
            );
            self.lemma_round_passes_over(tables, i);
            self.lemma_round(tables);
            self.round(tables).lemma_headroom_nonnegative();
            self.round(tables).lemma_gate_holds(tables, i);
        }
    }

    /// The rare-currency gates: a slot whose next enhancement level takes
    /// more mythril, or more mythics, than the balance holds ends at the
    /// enhancement level it started at.
    pub proof fn lemma_milestone_blocks(self, tables: UpgradeTables, i: int)
        requires
            self.wf(),
            tables.wf(),
            0 <= i < self.slots.len(),
            self.budget.mythril < tables.mythril_cost_spec(self.slots[i].enhancement + 1)
                || self.budget.mythics < tables.mythic_cost_spec(self.slots[i].enhancement + 1),
        ensures
            self.run(tables).slots[i].enhancement == self.slots[i].enhancement,
        decreases self.headroom(),
    {
        if !self.is_settled(tables) {
            let slot = self.slots[i];
            let target = step_target(Track::Enhancement, slot, tables);
            tables.lemma_required_mastery_monotone(target.enhancement, target.enhancement);
            tables.lemma_between_bounds(slot.mastery, target.mastery);
            self.lemma_round_passes_over(tables, i);
            self.lemma_round(tables);
            self.round(tables).lemma_headroom_nonnegative();
            self.round(tables).lemma_milestone_blocks(tables, i);
        }
    }

    /// In the allocation that the rounds end in, no slot has a step on either
    /// track that the balance covers.
    pub proof fn lemma_run_exhausts(self, track: Track, tables: UpgradeTables, i: int)
        requires
            self.wf(),
            tables.wf(),
            0 <= i < self.slots.len(),
        ensures
            step_key(track, self.run(tables).slots[i], self.run(tables).budget, tables) is None,
    {
        self.lemma_run(tables);
        self.run(tables).lemma_pick(track, tables);
    }
}

/// What a step does to a well-formed slot: the target is well formed and no
/// lower on either track, higher on its own; the cost and the gain are not
/// negative.
pub proof fn lemma_step(track: Track, slot: SlotModel, tables: UpgradeTables)
    requires
        slot.wf(),
        tables.wf(),
        step_open(track, slot),
    ensures
        step_target(track, slot, tables).wf(),
        slot.grows_to(step_target(track, slot, tables)),
        step_target(track, slot, tables).headroom() < slot.headroom(),
        step_cost(track, slot, tables).wf(),
        step_cost(track, slot, tables).exp <= 9300,
        step_cost(track, slot, tables).hammers <= 20 * 0xffff_ffff,
        step_cost(track, slot, tables).mythril <= 0xffff_ffff,
        step_cost(track, slot, tables).mythics <= 21 * 0xffff_ffff,
        step_ratio(track, slot, tables).wf(),
        step_gain(track, slot, tables) <= 300000 * 0xffff_ffff,
{
    let target = step_target(track, slot, tables);
    if track == Track::Enhancement {
        tables.lemma_required_mastery_monotone(target.enhancement, target.enhancement);
        tables.lemma_between_bounds(slot.mastery, target.mastery);
        lemma_exp_cost_step(slot.enhancement);
    }
    lemma_stat_monotone(slot.enhancement, slot.mastery, target.enhancement, target.mastery);
    lemma_stat_bounds(slot.enhancement, slot.mastery);
    lemma_stat_bounds(target.enhancement, target.mastery);
    let rise = stat_spec(target.enhancement, target.mastery) - stat_spec(
        slot.enhancement,
        slot.mastery,
    );
    let weight = slot.weight();
    assert(0 <= weight * rise <= 300000 * 0xffff_ffff) by (nonlinear_arith)
        requires
            0 <= weight <= 0xffff_ffff,
            0 <= rise <= 300000,
    ;
}

/// Replacing one slot changes a sum over the roster by the difference of the
/// two slots' measures.
pub proof fn lemma_sum_update(
    slots: Seq<SlotModel>,
    measure: spec_fn(SlotModel) -> int,
    i: int,
    slot: SlotModel,
)
    requires
        0 <= i < slots.len(),
    ensures
        sum_over(slots.update(i, slot), measure) == sum_over(slots, measure) - measure(slots[i])
            + measure(slot),
    decreases slots.len(),
{
    let updated = slots.update(i, slot);
    if i == slots.len() - 1 {
        assert(updated.drop_last() =~= slots.drop_last());
    } else {
        assert(updated.drop_last() =~= slots.drop_last().update(i, slot));
        lemma_sum_update(slots.drop_last(), measure, i, slot);
    }
}

/// A measure that is negative on no well-formed slot has no negative sum
/// over a roster of well-formed slots.
pub proof fn lemma_sum_nonnegative(slots: Seq<SlotModel>, measure: spec_fn(SlotModel) -> int)
    requires
        forall|i: int| 0 <= i < slots.len() ==> (#[trigger] slots[i]).wf(),
        forall|slot: SlotModel| slot.wf() ==> #[trigger] measure(slot) >= 0,
    ensures
        sum_over(slots, measure) >= 0,
    decreases slots.len(),
{
    if slots.len() > 0 {
        assert(slots.last().wf());
        lemma_sum_nonnegative(slots.drop_last(), measure);
    }
}

} // verus!
