//! The allocation engine: a roster of equipment slots, a budget of four
//! resources, and the rounds that spend the budget on the most efficient
//! steps until none is left.
use crate::efficiency::{lemma_advance, lemma_picked_is_best, picked_among, Efficiency};
pub use crate::model::Track;
use crate::model::{
    lemma_step, step_cost, step_open, step_ratio, step_target, Allocation, Resources, SlotModel,
};
use crate::tables::UpgradeTables;
use crate::types::StatWeights;
use crate::valuation::{
    exp_cost, lemma_stat_bounds, lemma_stat_monotone, stat, MAX_ENHANCEMENT, MAX_MASTERY,
};
use vstd::prelude::*;

verus! {

/// One upgradeable piece of the roster: the stat it feeds, its two levels and
/// its owner's weights.
#[derive(Clone, Copy, Debug, PartialEq, Eq)]
pub struct EquipmentSlot {
    pub is_lethality: bool,
    pub mastery: i32,
    pub enhancement: i32,
    pub weights: StatWeights,
}

impl View for EquipmentSlot {
    type V = SlotModel;

    open spec fn view(&self) -> SlotModel {
        SlotModel {
            is_lethality: self.is_lethality,
            mastery: self.mastery as int,
            enhancement: self.enhancement as int,
            weight_lethality: self.weights.lethality as int,
            weight_health: self.weights.health as int,
        }
    }
}

impl EquipmentSlot {
    /// Both levels lie in their ranges.
    pub open spec fn wf(&self) -> bool {
        self@.wf()
    }

    pub fn is_valid(&self) -> (ok: bool)
        ensures
            ok == self.wf(),
    {
        0 <= self.enhancement && self.enhancement <= MAX_ENHANCEMENT && 0 <= self.mastery
            && self.mastery <= MAX_MASTERY
    }
}

/// Balances of the four resources, or the amounts that a step takes.
#[derive(Clone, Copy, Debug, PartialEq, Eq)]
pub struct ResourceBudget {
    pub exp: u128,
    pub hammers: u64,
    pub mythril: u64,
    pub mythics: u64,
}

impl View for ResourceBudget {
    type V = Resources;

    open spec fn view(&self) -> Resources {
        Resources {
            exp: self.exp as int,
            hammers: self.hammers as int,
            mythril: self.mythril as int,
            mythics: self.mythics as int,
        }
    }
}

impl ResourceBudget {
    /// Whether every amount of `cost` is within this budget.
    pub fn covers(&self, cost: &ResourceBudget) -> (ok: bool)
        ensures
            ok == self@.covers(cost@),
    {
        cost.exp <= self.exp && cost.hammers <= self.hammers && cost.mythril <= self.mythril
            && cost.mythics <= self.mythics
    }

    /// Takes `cost` out of the budget.
    pub fn spend(&mut self, cost: &ResourceBudget)
        requires
            old(self)@.covers(cost@),
        ensures
            final(self)@ == old(self)@.minus(cost@),
    {
        self.exp = self.exp - cost.exp;
        self.hammers = self.hammers - cost.hammers;
        self.mythril = self.mythril - cost.mythril;
        self.mythics = self.mythics - cost.mythics;
    }
}

/// A priced step: the slot after it, what it takes, and its efficiency.
#[derive(Clone, Copy, Debug, PartialEq, Eq)]
pub struct Step {
    pub target: EquipmentSlot,
    pub cost: ResourceBudget,
    pub efficiency: Efficiency,
}

impl Step {
    /// This is the next step of `slot` on the track.
    pub open spec fn is_step_of(&self, track: Track, slot: SlotModel, tables: UpgradeTables) -> bool {
        &&& self.target@ == step_target(track, slot, tables)
        &&& self.cost@ == step_cost(track, slot, tables)
        &&& self.efficiency@ == step_ratio(track, slot, tables)
    }
}

/// The roster as the rules see it.
pub open spec fn roster_model(slots: Seq<EquipmentSlot>) -> Seq<SlotModel> {
    Seq::new(slots.len(), |i: int| slots[i]@)
}

/// Roster and budget as the rules see them.
pub open spec fn allocation_model(slots: Seq<EquipmentSlot>, budget: ResourceBudget) -> Allocation {
    Allocation { slots: roster_model(slots), budget: budget@ }
}

/// The slot that a pick names.
pub open spec fn picked_slot(pick: Option<(usize, Step)>) -> Option<int> {
    match pick {
        Some((i, _)) => Some(i as int),
        None => None,
    }
}

/// Prices the next step of a slot on a track; `None` where the slot is at the
/// top of the track.
pub fn next_step(track: Track, slot: &EquipmentSlot, tables: &UpgradeTables) -> (step: Option<Step>)
    requires
        slot.wf(),
        tables.wf(),
    ensures
        step is Some <==> step_open(track, slot@),
        step matches Some(priced) ==> priced.is_step_of(track, slot@, *tables),
{
    proof {
        if step_open(track, slot@) {
            lemma_step(track, slot@, *tables);
        }
    }
    let target: EquipmentSlot;
    let cost: ResourceBudget;
    let measure: u64;
    match track {
        Track::Enhancement => {
            if slot.enhancement >= MAX_ENHANCEMENT {
                return None;
            }
            let next: i32 = slot.enhancement + 1;
            let required: i32 = tables.required_mastery(next);
            let mastery: i32 = if slot.mastery < required { required } else { slot.mastery };
            let raise: (u64, u64) = tables.mastery_range_cost(slot.mastery, mastery);
            let exp: i32 = exp_cost(next) - exp_cost(slot.enhancement);
            target = EquipmentSlot {
                is_lethality: slot.is_lethality,
                mastery,
                enhancement: next,
                weights: slot.weights,
            };
            cost = ResourceBudget {
                exp: exp as u128,
                hammers: raise.0,
                mythril: tables.mythril_cost(next) as u64,
                mythics: tables.mythic_cost(next) as u64 + raise.1,
            };
            measure = exp as u64;
        },
        Track::Mastery => {
            if slot.mastery >= MAX_MASTERY {
                return None;
            }
            let next: i32 = slot.mastery + 1;
            let hammers: u64 = tables.hammer_cost(next) as u64;
            target = EquipmentSlot {
                is_lethality: slot.is_lethality,
                mastery: next,
                enhancement: slot.enhancement,
                weights: slot.weights,
            };
            cost = ResourceBudget {
                exp: 0,
                hammers,
                mythril: 0,
                mythics: tables.mastery_mythic_cost(next) as u64,
            };
            measure = hammers;
        },
    }
    proof {
        lemma_stat_bounds(slot.enhancement as int, slot.mastery as int);
        lemma_stat_bounds(target.enhancement as int, target.mastery as int);
        lemma_stat_monotone(
            slot.enhancement as int,
            slot.mastery as int,
            target.enhancement as int,
            target.mastery as int,
        );
    }
    let rise: i128 = stat(target.enhancement, target.mastery) - stat(slot.enhancement, slot.mastery);
    let weight: u32 = if slot.is_lethality {
        slot.weights.lethality
    } else {
        slot.weights.health
    };
    assert(weight * rise <= 300000 * 0xffff_ffff) by (nonlinear_arith)
        requires
            0 <= weight <= 0xffff_ffff,
            0 <= rise <= 300000,
    ;
    let gain: u64 = (weight as u64) * (rise as u64);
    Some(Step { target, cost, efficiency: Efficiency { gain, cost: measure } })
}

/// Scans the roster for the step of a track to commit: the earliest of
/// greatest efficiency among the steps that the budget covers.
pub fn best_step(
    track: Track,
    slots: &Vec<EquipmentSlot>,
    budget: &ResourceBudget,
    tables: &UpgradeTables,
) -> (best: Option<(usize, Step)>)
    requires
        allocation_model(slots@, *budget).wf(),
        tables.wf(),
    ensures
        picked_slot(best) == allocation_model(slots@, *budget).pick(track, *tables),
        best matches Some((i, step)) ==> i < slots@.len() && step.is_step_of(
            track,
            slots@[i as int]@,
            *tables,
        ),
{
    let ghost allocation = allocation_model(slots@, *budget);
    let ghost keys = allocation.keys(track, *tables);
    proof {
        allocation.lemma_keys_wf(track, *tables);
    }
    let mut best: Option<(usize, Step)> = None;
    let mut i: usize = 0;
    while i < slots.len()
        invariant
            i <= slots@.len(),
            tables.wf(),
            allocation == allocation_model(slots@, *budget),
            allocation.wf(),
            keys == allocation.keys(track, *tables),
            forall|j: int| 0 <= j < keys.len() && (#[trigger] keys[j]) is Some ==> keys[j]->0.wf(),
            picked_among(keys, i as int, picked_slot(best)),
            best matches Some((b, step)) ==> b < i && step.is_step_of(
                track,
                slots@[b as int]@,
                *tables,
            ),
        decreases slots@.len() - i,
    {
        assert(allocation.slots[i as int] == slots@[i as int]@);
        assert(allocation.slots[i as int].wf());
        proof {
            lemma_advance(keys, i as int, picked_slot(best));
        }
        match next_step(track, &slots[i], tables) {
            Some(step) => {
                if budget.covers(&step.cost) {
                    let better: bool = match &best {
                        Some((_, held)) => step.efficiency.exceeds(&held.efficiency),
                        None => true,
                    };
                    if better {
                        best = Some((i, step));
                    }
                }
            },
            None => {},
        }
        i += 1;
    }
    proof {
        lemma_picked_is_best(keys, picked_slot(best));
    }
    best
}

/// Runs one round on the roster: picks the best step of each track on the
/// same balances, commits the enhancement step, then the mastery step where
/// the slot's mastery is unchanged and the balance still covers it. Returns
/// whether any step was on offer.
pub fn run_round(
    slots: &mut Vec<EquipmentSlot>,
    budget: &mut ResourceBudget,
    tables: &UpgradeTables,
) -> (progressed: bool)
    requires
        allocation_model(old(slots)@, *old(budget)).wf(),
        tables.wf(),
    ensures
        allocation_model(final(slots)@, *final(budget)) == allocation_model(
            old(slots)@,
            *old(budget),
        ).round(*tables),
        progressed == !allocation_model(old(slots)@, *old(budget)).is_settled(*tables),
        allocation_model(final(slots)@, *final(budget)).wf(),
        allocation_model(old(slots)@, *old(budget)).leads_to(
            allocation_model(final(slots)@, *final(budget)),
        ),
{
    let ghost start = allocation_model(slots@, *budget);
    let enhancement = best_step(Track::Enhancement, slots, budget, tables);
    let mastery = best_step(Track::Mastery, slots, budget, tables);
    proof {
        start.lemma_pick(Track::Enhancement, *tables);
        start.lemma_pick(Track::Mastery, *tables);
        start.lemma_round(*tables);
    }
    if let Some((i, step)) = enhancement {
        slots[i] = step.target;
        budget.spend(&step.cost);
        assert(roster_model(slots@) =~= start.apply(Track::Enhancement, i as int, *tables).slots);
    }
    let ghost first = allocation_model(slots@, *budget);
    assert(roster_model(slots@) =~= start.after_enhancement(*tables).slots);
    assert(first == start.after_enhancement(*tables));
    if let Some((j, step)) = mastery {
        let held: EquipmentSlot = slots[j];
        assert(held@ == first.slots[j as int]);
        if held.mastery + 1 == step.target.mastery && budget.covers(&step.cost) {
            slots[j] = EquipmentSlot {
                is_lethality: held.is_lethality,
                mastery: step.target.mastery,
                enhancement: held.enhancement,
                weights: held.weights,
            };
            budget.spend(&step.cost);
            assert(roster_model(slots@) =~= first.apply(Track::Mastery, j as int, *tables).slots);
        }
    }
    enhancement.is_some() || mastery.is_some()
}

/// Spends the budget on the roster, round after round, until no step is left
/// that the budget covers. No balance is overdrawn and no level is lowered
/// or taken out of its range on the way.
pub fn optimize(slots: &mut Vec<EquipmentSlot>, budget: &mut ResourceBudget, tables: &UpgradeTables)
    requires
        allocation_model(old(slots)@, *old(budget)).wf(),
        tables.wf(),
    ensures
        allocation_model(final(slots)@, *final(budget)) == allocation_model(
            old(slots)@,
            *old(budget),
        ).run(*tables),
        allocation_model(final(slots)@, *final(budget)).wf(),
        allocation_model(final(slots)@, *final(budget)).is_settled(*tables),
        allocation_model(old(slots)@, *old(budget)).leads_to(
            allocation_model(final(slots)@, *final(budget)),
        ),
{
    proof {
        allocation_model(slots@, *budget).lemma_run(*tables);
    }
    loop
        invariant
            tables.wf(),
            allocation_model(old(slots)@, *old(budget)).wf(),
            allocation_model(slots@, *budget).wf(),
            allocation_model(slots@, *budget).run(*tables) == allocation_model(
                old(slots)@,
                *old(budget),
            ).run(*tables),
        ensures
            allocation_model(slots@, *budget) == allocation_model(old(slots)@, *old(budget)).run(
                *tables,
            ),
        decreases allocation_model(slots@, *budget).headroom(),
    {
        proof {
            let current = allocation_model(slots@, *budget);
            current.lemma_round(*tables);
            current.round(*tables).lemma_headroom_nonnegative();
        }
        let progressed: bool = run_round(slots, budget, tables);
        if !progressed {
            break;
        }
    }
}

} // verus!
