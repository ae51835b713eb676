//! Reporting a roster hero by hero: levels before and after, stats, and
//! weighted scores.
use crate::engine::{roster_model, EquipmentSlot};
use crate::model::SlotModel;
use crate::types::{
    Gear, GearResult, HeroGear, HeroWeights, InputData, OptimizationOutput, OptimizationResult,
    StatWeights, Stats,
};
use crate::valuation::{calculate_stats, lemma_stat_bounds, lemma_stat_range, stats_spec};
use vstd::prelude::*;

verus! {

/// The name of the piece at a position of the roster order.
pub open spec fn piece_name(position: int) -> Seq<char> {
    if position == 0 {
        "helmet"@
    } else if position == 1 {
        "gloves"@
    } else if position == 2 {
        "breastplate"@
    } else {
        "boots"@
    }
}

/// The levels of a slot as a piece of gear.
pub open spec fn gear_of(slot: SlotModel) -> Gear {
    Gear { mastery: slot.mastery as i32, enhancement: slot.enhancement as i32 }
}

/// The gear of the hero at `index` as a roster holds it.
pub open spec fn hero_gear_at(slots: Seq<SlotModel>, index: int) -> HeroGear {
    HeroGear {
        helmet: gear_of(slots[4 * index]),
        gloves: gear_of(slots[4 * index + 1]),
        breastplate: gear_of(slots[4 * index + 2]),
        boots: gear_of(slots[4 * index + 3]),
    }
}

/// A hero's weighted score: each stat times its weight.
pub open spec fn score_spec(stats: Stats, weights: StatWeights) -> int {
    stats.lethality * weights.lethality + stats.health * weights.health
}

/// The sum of the heroes' scores, each hero wearing the gear at its index.
pub open spec fn total_score(heroes: Seq<HeroWeights>, gears: Seq<HeroGear>) -> int
    decreases heroes.len(),
{
    if heroes.len() == 0 {
        0
    } else {
        total_score(heroes.drop_last(), gears.drop_last()) + score_spec(
            stats_spec(gears[heroes.len() - 1]),
            heroes.last().weights,
        )
    }
}

/// The gear that each hero of the request wears.
pub open spec fn gears_before(heroes: Seq<HeroWeights>) -> Seq<HeroGear> {
    Seq::new(heroes.len(), |i: int| heroes[i].gear)
}

/// The gear that each hero wears in a roster.
pub open spec fn gears_after(slots: Seq<SlotModel>, heroes: nat) -> Seq<HeroGear> {
    Seq::new(heroes, |i: int| hero_gear_at(slots, i))
}

impl GearResult {
    /// This entry reports the piece at `position`, from `before` to `after`.
    pub open spec fn describes(&self, position: int, before: Gear, after: Gear) -> bool {
        &&& self.gear_type@ == piece_name(position)
        &&& self.current_mastery == before.mastery
        &&& self.recommended_mastery == after.mastery
        &&& self.current_enhancement == before.enhancement
        &&& self.recommended_enhancement == after.enhancement
    }
}

impl OptimizationResult {
    /// This result reports `hero` with `after` as the recommended gear: the
    /// four pieces in roster order, and stats and score of both gears.
    pub open spec fn describes(&self, hero: HeroWeights, after: HeroGear) -> bool {
        &&& self.hero_name@ == hero.name@
        &&& self.gear@.len() == 4
        &&& forall|p: int|
            0 <= p < 4 ==> (#[trigger] self.gear@[p]).describes(
                p,
                hero.gear.piece(p),
                after.piece(p),
            )
        &&& self.before_stats == stats_spec(hero.gear)
        &&& self.after_stats == stats_spec(after)
        &&& self.before_score == score_spec(stats_spec(hero.gear), hero.weights)
        &&& self.after_score == score_spec(stats_spec(after), hero.weights)
    }
}

impl OptimizationOutput {
    /// This output reports the request with `outcome` as the final roster:
    /// one result per hero in request order, and the two totals.
    pub open spec fn describes(&self, input: InputData, outcome: Seq<SlotModel>) -> bool {
        &&& self.results@.len() == input.heroes@.len()
        &&& forall|i: int|
            0 <= i < input.heroes@.len() ==> (#[trigger] self.results@[i]).describes(
                input.heroes@[i],
                hero_gear_at(outcome, i),
            )
        &&& self.total_before_score == total_score(input.heroes@, gears_before(input.heroes@))
        &&& self.total_after_score == total_score(
            input.heroes@,
            gears_after(outcome, input.heroes@.len()),
        )
    }
}

/// A hero's weighted score from its stats.
pub fn weighted_score(stats: &Stats, weights: &StatWeights) -> (score: i128)
    requires
        -0x1_0000_0000_0000_0000_0000 <= stats.lethality <= 0x1_0000_0000_0000_0000_0000,
        -0x1_0000_0000_0000_0000_0000 <= stats.health <= 0x1_0000_0000_0000_0000_0000,
    ensures
        score == score_spec(*stats, *weights),
{
    let lethality: i128 = stats.lethality;
    let health: i128 = stats.health;
    let for_lethality: i128 = weights.lethality as i128;
    let for_health: i128 = weights.health as i128;
    assert(-0x1_0000_0000_0000_0000_0000_0000_0000 <= lethality * for_lethality
        <= 0x1_0000_0000_0000_0000_0000_0000_0000 && -0x1_0000_0000_0000_0000_0000_0000_0000
        <= health * for_health <= 0x1_0000_0000_0000_0000_0000_0000_0000) by (nonlinear_arith)
        requires
            -0x1_0000_0000_0000_0000_0000 <= lethality <= 0x1_0000_0000_0000_0000_0000,
            -0x1_0000_0000_0000_0000_0000 <= health <= 0x1_0000_0000_0000_0000_0000,
            0 <= for_lethality <= 0xffff_ffff,
            0 <= for_health <= 0xffff_ffff,
    ;
    lethality * for_lethality + health * for_health
}

/// Within the level ranges a hero's score lies between zero and
/// 12 times the greatest weight.
pub proof fn lemma_score_bounds(gear: HeroGear, weights: StatWeights)
    requires
        gear.wf(),
    ensures
        0 <= stats_spec(gear).lethality <= 600000,
        0 <= stats_spec(gear).health <= 600000,
        0 <= score_spec(stats_spec(gear), weights) <= 1200000 * 0xffff_ffff,
{
    lemma_stat_bounds(gear.helmet.enhancement as int, gear.helmet.mastery as int);
    lemma_stat_bounds(gear.gloves.enhancement as int, gear.gloves.mastery as int);
    lemma_stat_bounds(gear.breastplate.enhancement as int, gear.breastplate.mastery as int);
    lemma_stat_bounds(gear.boots.enhancement as int, gear.boots.mastery as int);
    let stats = stats_spec(gear);
    let (lethality, health) = (stats.lethality as int, stats.health as int);
    let (for_lethality, for_health) = (weights.lethality as int, weights.health as int);
    assert(0 <= lethality * for_lethality <= 600000 * 0xffff_ffff && 0 <= health * for_health
        <= 600000 * 0xffff_ffff) by (nonlinear_arith)
        requires
            0 <= lethality <= 600000,
            0 <= health <= 600000,
            0 <= for_lethality <= 0xffff_ffff,
            0 <= for_health <= 0xffff_ffff,
    ;
}

/// Reports one piece.
fn piece_result(position: usize, before: &Gear, after: &Gear) -> (entry: GearResult)
    requires
        position < 4,
    ensures
        entry.describes(position as int, *before, *after),
{
    let name: &str = if position == 0 {
        "helmet"
    } else if position == 1 {
        "gloves"
    } else if position == 2 {
        "breastplate"
    } else {
        "boots"
    };
    GearResult {
        gear_type: name.to_owned(),
        current_mastery: before.mastery,
        recommended_mastery: after.mastery,
        current_enhancement: before.enhancement,
        recommended_enhancement: after.enhancement,
    }
}

/// Reports one hero: the four pieces in roster order, and stats and score
/// with the gear worn and with the gear recommended.
pub fn hero_result(hero: &HeroWeights, after: &HeroGear) -> (result: OptimizationResult)
    ensures
        result.describes(*hero, *after),
{
    proof {
        lemma_stat_range(hero.gear.helmet.enhancement, hero.gear.helmet.mastery);
        lemma_stat_range(hero.gear.gloves.enhancement, hero.gear.gloves.mastery);
        lemma_stat_range(hero.gear.breastplate.enhancement, hero.gear.breastplate.mastery);
        lemma_stat_range(hero.gear.boots.enhancement, hero.gear.boots.mastery);
        lemma_stat_range(after.helmet.enhancement, after.helmet.mastery);
        lemma_stat_range(after.gloves.enhancement, after.gloves.mastery);
        lemma_stat_range(after.breastplate.enhancement, after.breastplate.mastery);
        lemma_stat_range(after.boots.enhancement, after.boots.mastery);
    }
    let before_stats = calculate_stats(&hero.gear);
    let before_score: i128 = weighted_score(&before_stats, &hero.weights);
    let after_stats = calculate_stats(after);
    let after_score: i128 = weighted_score(&after_stats, &hero.weights);
    let mut gear: Vec<GearResult> = Vec::new();
    gear.push(piece_result(0, &hero.gear.helmet, &after.helmet));
    gear.push(piece_result(1, &hero.gear.gloves, &after.gloves));
    gear.push(piece_result(2, &hero.gear.breastplate, &after.breastplate));
    gear.push(piece_result(3, &hero.gear.boots, &after.boots));
    OptimizationResult {
        hero_name: hero.name.clone(),
        gear,
        before_stats,
        after_stats,
        before_score,
        after_score,
    }
}

/// The levels of the slot at `index`.
fn gear_at(slots: &Vec<EquipmentSlot>, index: usize) -> (gear: Gear)
    requires
        index < slots@.len(),
    ensures
        gear == gear_of(slots@[index as int]@),
{
    Gear { mastery: slots[index].mastery, enhancement: slots[index].enhancement }
}

/// Reports a request against a roster that holds four slots for each of its
/// heroes.
pub fn report(input: &InputData, slots: &Vec<EquipmentSlot>) -> (output: OptimizationOutput)
    requires
        input.wf(),
        slots@.len() == 4 * input.heroes@.len(),
        forall|k: int| 0 <= k < slots@.len() ==> (#[trigger] slots@[k]).wf(),
    ensures
        output.describes(*input, roster_model(slots@)),
{
    let ghost heroes = input.heroes@;
    let ghost outcome = roster_model(slots@);
    let ghost before = gears_before(heroes);
    let ghost after = gears_after(outcome, heroes.len());
    let slot_count: usize = slots.len();
    let mut results: Vec<OptimizationResult> = Vec::new();
    let mut total_before: i128 = 0;
    let mut total_after: i128 = 0;
    let mut i: usize = 0;
    while i < input.heroes.len()
        invariant
            input.wf(),
            heroes == input.heroes@,
            slot_count == slots@.len(),
            outcome == roster_model(slots@),
            before == gears_before(heroes),
            after == gears_after(outcome, heroes.len()),
            i <= heroes.len(),
            slots@.len() == 4 * heroes.len(),
            forall|k: int| 0 <= k < slots@.len() ==> (#[trigger] slots@[k]).wf(),
            results@.len() == i,
            forall|j: int|
                0 <= j < i ==> (#[trigger] results@[j]).describes(
                    heroes[j],
                    hero_gear_at(outcome, j),
                ),
            total_before == total_score(heroes.take(i as int), before.take(i as int)),
            total_after == total_score(heroes.take(i as int), after.take(i as int)),
            0 <= total_before <= i * 5153960754000000,
            0 <= total_after <= i * 5153960754000000,
        decreases heroes.len() - i,
    {
        let hero = &input.heroes[i];
        let recommended = HeroGear {
            helmet: gear_at(slots, 4 * i),
            gloves: gear_at(slots, 4 * i + 1),
            breastplate: gear_at(slots, 4 * i + 2),
            boots: gear_at(slots, 4 * i + 3),
        };
        proof {
            assert(slots@[4 * i].wf() && slots@[4 * i + 1].wf() && slots@[4 * i + 2].wf()
                && slots@[4 * i + 3].wf());
            assert(recommended == hero_gear_at(outcome, i as int));
            assert(heroes[i as int].gear.wf());
            lemma_score_bounds(hero.gear, hero.weights);
            lemma_score_bounds(recommended, hero.weights);
            assert(heroes.take(i + 1).drop_last() =~= heroes.take(i as int));
            assert(before.take(i + 1).drop_last() =~= before.take(i as int));
            assert(after.take(i + 1).drop_last() =~= after.take(i as int));
        }
        let result = hero_result(hero, &recommended);
        total_before = total_before + result.before_score;
        total_after = total_after + result.after_score;
        results.push(result);
        i += 1;
    }
    proof {
        assert(heroes.take(i as int) =~= heroes);
        assert(before.take(i as int) =~= before);
        assert(after.take(i as int) =~= after);
    }
    OptimizationOutput { results, total_before_score: total_before, total_after_score: total_after }
}

} // verus!
