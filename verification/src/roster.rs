//! Building the roster of a request: every piece enters under the reset
//! policy, and the experience it gives back goes into the budget.
use crate::engine::{allocation_model, roster_model, EquipmentSlot, ResourceBudget};
use crate::model::{sum_over, Allocation, Resources, SlotModel};
use crate::types::{Gear, HeroGear, HeroWeights, InputData, StatWeights};
use crate::valuation::{exp_cost, exp_cost_spec, lemma_exp_cost_monotone, RESET_THRESHOLD};
use vstd::prelude::*;

verus! {

/// Helmet and boots feed lethality; gloves and breastplate feed health.
pub open spec fn feeds_lethality(position: int) -> bool {
    position == 0 || position == 3
}

/// The enhancement level a piece enters the roster with: its own from the
/// reset threshold on, zero below.
pub open spec fn start_level_spec(enhancement: int) -> int {
    if enhancement >= 101 {
        enhancement
    } else {
        0
    }
}

/// The experience that entering the roster gives back: what the reclaimed
/// level had cost, and nothing for a level that is kept.
pub open spec fn refund_spec(enhancement: int) -> int {
    if enhancement >= 101 {
        0
    } else {
        exp_cost_spec(enhancement)
    }
}

/// The reset policy for one piece: the enhancement level it enters the roster
/// with and the experience it gives back. Mastery is never reset.
pub fn reset_policy(gear: &Gear) -> (entry: (i32, i32))
    ensures
        entry.0 == start_level_spec(gear.enhancement as int),
        entry.1 == refund_spec(gear.enhancement as int),
{
    if gear.enhancement >= RESET_THRESHOLD {
        (gear.enhancement, 0)
    } else {
        (0, exp_cost(gear.enhancement))
    }
}

/// The slot that a hero's piece at a position enters the roster as.
pub open spec fn start_slot(hero: HeroWeights, position: int) -> SlotModel {
    let gear = hero.gear.piece(position);
    SlotModel {
        is_lethality: feeds_lethality(position),
        mastery: gear.mastery as int,
        enhancement: start_level_spec(gear.enhancement as int),
        weight_lethality: hero.weights.lethality as int,
        weight_health: hero.weights.health as int,
    }
}

/// The roster of a request: four slots per hero, heroes in request order.
pub open spec fn start_roster(heroes: Seq<HeroWeights>) -> Seq<SlotModel> {
    Seq::new(4 * heroes.len(), |k: int| start_slot(heroes[k / 4], k % 4))
}

/// The experience that a hero's four pieces give back.
pub open spec fn hero_refund(gear: HeroGear) -> int {
    refund_spec(gear.helmet.enhancement as int) + refund_spec(gear.gloves.enhancement as int)
        + refund_spec(gear.breastplate.enhancement as int) + refund_spec(
        gear.boots.enhancement as int,
    )
}

/// The experience that all heroes' pieces give back.
pub open spec fn total_refund(heroes: Seq<HeroWeights>) -> int
    decreases heroes.len(),
{
    if heroes.len() == 0 {
        0
    } else {
        total_refund(heroes.drop_last()) + hero_refund(heroes.last().gear)
    }
}

/// The experience that stands in the enhancement levels of a hero's gear.
pub open spec fn hero_invested(gear: HeroGear) -> int {
    exp_cost_spec(gear.helmet.enhancement as int) + exp_cost_spec(gear.gloves.enhancement as int)
        + exp_cost_spec(gear.breastplate.enhancement as int) + exp_cost_spec(
        gear.boots.enhancement as int,
    )
}

/// The experience that stands in the enhancement levels of all heroes' gear.
pub open spec fn total_invested(heroes: Seq<HeroWeights>) -> int
    decreases heroes.len(),
{
    if heroes.len() == 0 {
        0
    } else {
        total_invested(heroes.drop_last()) + hero_invested(heroes.last().gear)
    }
}

/// Roster and budget before the first round: the request's balances, with
/// the refunds added to the experience.
pub open spec fn start_allocation(input: InputData) -> Allocation {
    Allocation {
        slots: start_roster(input.heroes@),
        budget: Resources {
            exp: input.exp + total_refund(input.heroes@),
            hammers: input.hammers as int,
            mythril: input.mythril as int,
            mythics: input.mythics as int,
        },
    }
}

/// The roster and budget of a valid request are well formed.
pub proof fn lemma_start_wf(input: InputData)
    requires
        input.wf(),
    ensures
        start_allocation(input).wf(),
        start_allocation(input).slots.len() == 4 * input.heroes@.len(),
{
    lemma_refund_bounds(input.heroes@);
    let roster = start_roster(input.heroes@);
    assert forall|k: int| 0 <= k < roster.len() implies (#[trigger] roster[k]).wf() by {
        assert(input.heroes@[k / 4].gear.wf());
    }
}

/// No refund is negative, and a hero gives back at most four times the cost
/// of level 100.
pub proof fn lemma_refund_bounds(heroes: Seq<HeroWeights>)
    requires
        forall|i: int| 0 <= i < heroes.len() ==> (#[trigger] heroes[i]).gear.wf(),
    ensures
        0 <= total_refund(heroes) <= heroes.len() * 293280,
    decreases heroes.len(),
{
    if heroes.len() > 0 {
        let gear = heroes.last().gear;
        assert(gear.wf());
        lemma_refund_bound(gear.helmet.enhancement as int);
        lemma_refund_bound(gear.gloves.enhancement as int);
        lemma_refund_bound(gear.breastplate.enhancement as int);
        lemma_refund_bound(gear.boots.enhancement as int);
        lemma_refund_bounds(heroes.drop_last());
    }
}

/// A piece gives back at most the cost of level 100.
pub proof fn lemma_refund_bound(enhancement: int)
    requires
        0 <= enhancement <= 200,
    ensures
        0 <= refund_spec(enhancement) <= 73320,
{
    if enhancement <= 100 {
        lemma_exp_cost_monotone(enhancement, 100);
    }
}

/// The reset policy loses no experience: what the pieces give back and what
/// stands in the roster they enter is what stood in the gear.
pub proof fn lemma_reset_conserves(heroes: Seq<HeroWeights>)
    ensures
        total_refund(heroes) + sum_over(start_roster(heroes), |slot: SlotModel| slot.invested())
            == total_invested(heroes),
    decreases heroes.len(),
{
    let measure = |slot: SlotModel| slot.invested();
    let roster = start_roster(heroes);
    if heroes.len() > 0 {
        let before = heroes.drop_last();
        let n = before.len() as int;
        let three = roster.drop_last();
        let two = three.drop_last();
        let one = two.drop_last();
        assert(one.drop_last() =~= start_roster(before)) by {
            assert forall|k: int| 0 <= k < 4 * n implies one.drop_last()[k] == start_roster(
                before,
            )[k] by {
                assert(before[k / 4] == heroes[k / 4]);
            }
        }
        assert(roster.last() == start_slot(heroes.last(), 3));
        assert(three.last() == start_slot(heroes.last(), 2));
        assert(two.last() == start_slot(heroes.last(), 1));
        assert(one.last() == start_slot(heroes.last(), 0));
        assert(sum_over(roster, measure) == sum_over(three, measure) + measure(roster.last()));
        assert(sum_over(three, measure) == sum_over(two, measure) + measure(three.last()));
        assert(sum_over(two, measure) == sum_over(one, measure) + measure(two.last()));
        assert(sum_over(one, measure) == sum_over(one.drop_last(), measure) + measure(one.last()));
        lemma_reset_conserves(before);
    }
}

/// Enters one piece into the roster and returns the experience it gives back.
fn enter(
    slots: &mut Vec<EquipmentSlot>,
    gear: &Gear,
    is_lethality: bool,
    weights: StatWeights,
) -> (refund: i32)
    ensures
        refund == refund_spec(gear.enhancement as int),
        final(slots)@ == old(slots)@.push(
            EquipmentSlot {
                is_lethality,
                mastery: gear.mastery,
                enhancement: start_level_spec(gear.enhancement as int) as i32,
                weights,
            },
        ),
{
    let entry: (i32, i32) = reset_policy(gear);
    slots.push(EquipmentSlot { is_lethality, mastery: gear.mastery, enhancement: entry.0, weights });
    entry.1
}

/// Builds the roster of a request under the reset policy, and the budget
/// with the refunds added.
pub fn build_roster(input: &InputData) -> (start: (Vec<EquipmentSlot>, ResourceBudget))
    requires
        input.wf(),
        input.heroes@.len() * 4 <= usize::MAX,
    ensures
        allocation_model(start.0@, start.1) == start_allocation(*input),
{
    let mut slots: Vec<EquipmentSlot> = Vec::new();
    let mut exp: u128 = input.exp as u128;
    let mut i: usize = 0;
    while i < input.heroes.len()
        invariant
            input.wf(),
            i <= input.heroes@.len(),
            slots@.len() == 4 * i,
            forall|k: int|
                0 <= k < 4 * i ==> (#[trigger] slots@[k])@ == start_slot(
                    input.heroes@[k / 4],
                    k % 4,
                ),
            exp == input.exp + total_refund(input.heroes@.take(i as int)),
            exp <= 0x7fff_ffff + i * 293280,
        decreases input.heroes@.len() - i,
    {
        let hero = &input.heroes[i];
        proof {
            assert(input.heroes@.take(i + 1).drop_last() =~= input.heroes@.take(i as int));
            assert(input.heroes@[i as int].gear.wf());
            lemma_refund_bound(hero.gear.helmet.enhancement as int);
            lemma_refund_bound(hero.gear.gloves.enhancement as int);
            lemma_refund_bound(hero.gear.breastplate.enhancement as int);
            lemma_refund_bound(hero.gear.boots.enhancement as int);
        }
        let helmet: i32 = enter(&mut slots, &hero.gear.helmet, true, hero.weights);
        let gloves: i32 = enter(&mut slots, &hero.gear.gloves, false, hero.weights);
        let breastplate: i32 = enter(&mut slots, &hero.gear.breastplate, false, hero.weights);
        let boots: i32 = enter(&mut slots, &hero.gear.boots, true, hero.weights);
        exp = exp + helmet as u128 + gloves as u128 + breastplate as u128 + boots as u128;
        i += 1;
    }
    proof {
        assert(input.heroes@.take(i as int) =~= input.heroes@);
        assert(roster_model(slots@) =~= start_roster(input.heroes@));
    }
    let budget = ResourceBudget {
        exp,
        hammers: input.hammers as u64,
        mythril: input.mythril as u64,
        mythics: input.mythics as u64,
    };
    (slots, budget)
}

} // verus!
