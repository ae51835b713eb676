//! The valuation model: what a level is worth and what it costs to reach.
use crate::types::{HeroGear, Stats};
use vstd::prelude::*;

verus! {

/// Highest enhancement level a slot can reach.
pub const MAX_ENHANCEMENT: i32 = 200;

/// Highest mastery level a slot can reach.
pub const MAX_MASTERY: i32 = 20;

/// A slot at or above this enhancement level keeps its level when the roster
/// is built; below it the level is reclaimed.
pub const RESET_THRESHOLD: i32 = 101;

/// Stat values are counted in units of `1 / STAT_SCALE`.
pub const STAT_SCALE: i128 = 100_000;

/// Cumulative experience needed to bring a slot from level 0 to each
/// enhancement level. Equal neighbours mark levels that cost no experience.
pub const EXP_COSTS: [i32; 201] = [
    0, 10, 25, 45, 70, 100, 135, 175, 220, 270, 325, 385, 450, 520, 595, 675, 760, 850, 945, 1045,
    1150, 1260, 1375, 1495, 1620, 1750, 1885, 2025, 2170, 2320, 2480, 2650, 2830, 3020, 3220, 3430,
    3650, 3880, 4120, 4370, 4640, 4930, 5240, 5570, 5920, 6290, 6680, 7090, 7520, 7970, 8440, 8930,
    9440, 9970, 10520, 11090, 11680, 12290, 12920, 13570, 14250, 14960, 15700, 16470, 17270, 18100,
    18960, 19850, 20770, 21720, 22710, 23740, 24810, 25920, 27070, 28260, 29490, 30760, 32070,
    33420, 34820, 36270, 37770, 39320, 40920, 42570, 44270, 46020, 47820, 49670, 51570, 53520,
    55520, 57570, 59670, 61820, 64020, 66270, 68570, 70920, 73320, 73320, 75820, 78370, 80970,
    83620, 86320, 89070, 91870, 94720, 97620, 100570, 103570, 106620, 109720, 112870, 116070,
    119320, 122620, 125970, 125970, 129470, 133020, 136620, 140270, 143970, 147720, 151520, 155370,
    159270, 163220, 167220, 171270, 175370, 179520, 183720, 187970, 192270, 196620, 201020, 201020,
    205470, 209970, 214520, 219120, 223770, 228470, 233220, 238020, 242870, 247770, 252720, 257720,
    262770, 267870, 273020, 278220, 283470, 288770, 294120, 294120, 299620, 305220, 310920, 316720,
    322620, 328620, 334720, 340920, 347220, 353620, 360120, 366720, 373420, 380220, 387120, 394120,
    401220, 408420, 415720, 415720, 423220, 430820, 438520, 446320, 454220, 462220, 470320, 478520,
    486820, 495220, 503720, 512320, 521020, 529820, 538720, 547720, 556820, 566020, 575320, 575320,
];

/// Cumulative experience cost of an enhancement level; zero outside the table.
pub open spec fn exp_cost_spec(level: int) -> int {
    if 0 <= level <= 200 {
        EXP_COSTS@[level] as int
    } else {
        0
    }
}

/// Experience needed to bring a slot from level 0 to `enhancement`.
pub fn exp_cost(enhancement: i32) -> (cost: i32)
    ensures
        cost == exp_cost_spec(enhancement as int),
{
    if enhancement < 0 || enhancement > MAX_ENHANCEMENT {
        return 0;
    }
    EXP_COSTS[enhancement as usize]
}

/// One level up never lowers the cumulative cost, and no single level costs
/// more than 9300.
pub proof fn lemma_exp_cost_step(level: int)
    requires
        0 <= level < 200,
    ensures
        0 <= exp_cost_spec(level) <= exp_cost_spec(level + 1) <= 575320,
        exp_cost_spec(level + 1) - exp_cost_spec(level) <= 9300,
{
}

/// The cumulative experience cost never decreases along the table.
pub proof fn lemma_exp_cost_monotone(from: int, to: int)
    requires
        0 <= from <= to <= 200,
    ensures
        0 <= exp_cost_spec(from) <= exp_cost_spec(to) <= 575320,
    decreases to - from,
{
    if from < to {
        lemma_exp_cost_step(to - 1);
        lemma_exp_cost_monotone(from, to - 1);
    } else if to < 200 {
        lemma_exp_cost_step(to);
    } else {
        lemma_exp_cost_step(199);
    }
}

/// Outside the table the cost is zero.
pub proof fn lemma_exp_cost_outside(level: int)
    requires
        level < 0 || level > 200,
    ensures
        exp_cost_spec(level) == 0,
{
}

/// The part of a stat value that enhancement alone gives, in units of
/// `1 / 10_000`: 0.15 at level 0, 0.0035 more per level up to 100, and 0.005
/// more per level beyond.
pub open spec fn base_stat_spec(enhancement: int) -> int {
    let lower = if enhancement < 100 { enhancement } else { 100 };
    let upper = if enhancement > 100 { enhancement - 100 } else { 0 };
    1500 + 35 * lower + 50 * upper
}

/// The stat value of a slot in units of `1 / STAT_SCALE`: the base value,
/// raised by a tenth for each mastery level.
pub open spec fn stat_spec(enhancement: int, mastery: int) -> int {
    base_stat_spec(enhancement) * (10 + mastery)
}

/// The stat value of a slot at the given levels, in units of `1 / STAT_SCALE`.
/// Neither level is clamped.
pub fn stat(enh: i32, mastery: i32) -> (value: i128)
    ensures
        value == stat_spec(enh as int, mastery as int),
{
    let level: i128 = enh as i128;
    let lower: i128 = if level < 100 { level } else { 100 };
    let upper: i128 = if level > 100 { level - 100 } else { 0 };
    let base: i128 = 1500 + 35 * lower + 50 * upper;
    let factor: i128 = 10 + mastery as i128;
    assert(-0x100_0000_0000_0000_0000 < base * factor < 0x100_0000_0000_0000_0000)
        by (nonlinear_arith)
        requires
            -0x100_0000_0000 < base < 0x100_0000_0000,
            -0x1_0000_0000 < factor < 0x1_0000_0000,
    ;
    base * factor
}

/// Within the level ranges a stat value lies between 0.15 and 3.
pub proof fn lemma_stat_bounds(enhancement: int, mastery: int)
    requires
        0 <= enhancement <= 200,
        0 <= mastery <= 20,
    ensures
        15000 <= stat_spec(enhancement, mastery) <= 300000,
{
    let base = base_stat_spec(enhancement);
    let factor = 10 + mastery;
    assert(15000 <= base * factor <= 300000) by (nonlinear_arith)
        requires
            1500 <= base <= 10000,
            10 <= factor <= 30,
    ;
}

/// Raising either level never lowers the stat value.
pub proof fn lemma_stat_monotone(e1: int, m1: int, e2: int, m2: int)
    requires
        0 <= e1 <= e2,
        0 <= m1 <= m2,
    ensures
        stat_spec(e1, m1) <= stat_spec(e2, m2),
{
    let b1 = base_stat_spec(e1);
    let b2 = base_stat_spec(e2);
    assert(b1 * (10 + m1) <= b2 * (10 + m2)) by (nonlinear_arith)
        requires
            0 <= b1 <= b2,
            0 <= m1 <= m2,
    ;
}

/// The two stats of a hero: lethality from helmet and boots, health from
/// breastplate and gloves.
pub open spec fn stats_spec(gear: HeroGear) -> Stats {
    Stats {
        lethality: (stat_spec(gear.helmet.enhancement as int, gear.helmet.mastery as int)
            + stat_spec(gear.boots.enhancement as int, gear.boots.mastery as int)) as i128,
        health: (stat_spec(gear.breastplate.enhancement as int, gear.breastplate.mastery as int)
            + stat_spec(gear.gloves.enhancement as int, gear.gloves.mastery as int)) as i128,
    }
}

/// Any two stat values of machine levels add up within `i128`.
pub proof fn lemma_stat_range(enhancement: i32, mastery: i32)
    ensures
        -0x100_0000_0000_0000_0000 < stat_spec(enhancement as int, mastery as int)
            < 0x100_0000_0000_0000_0000,
{
    let base = base_stat_spec(enhancement as int);
    let factor = 10 + mastery as int;
    assert(-0x100_0000_0000_0000_0000 < base * factor < 0x100_0000_0000_0000_0000)
        by (nonlinear_arith)
        requires
            -0x100_0000_0000 < base < 0x100_0000_0000,
            -0x1_0000_0000 < factor < 0x1_0000_0000,
    ;
}

pub fn calculate_stats(gear: &HeroGear) -> (stats: Stats)
    ensures
        stats == stats_spec(*gear),
        stats.lethality == stat_spec(gear.helmet.enhancement as int, gear.helmet.mastery as int)
            + stat_spec(gear.boots.enhancement as int, gear.boots.mastery as int),
        stats.health == stat_spec(
            gear.breastplate.enhancement as int,
            gear.breastplate.mastery as int,
        ) + stat_spec(gear.gloves.enhancement as int, gear.gloves.mastery as int),
{
    proof {
        lemma_stat_range(gear.helmet.enhancement, gear.helmet.mastery);
        lemma_stat_range(gear.boots.enhancement, gear.boots.mastery);
        lemma_stat_range(gear.breastplate.enhancement, gear.breastplate.mastery);
        lemma_stat_range(gear.gloves.enhancement, gear.gloves.mastery);
    }
    let lethality = stat(gear.helmet.enhancement, gear.helmet.mastery) + stat(
        gear.boots.enhancement,
        gear.boots.mastery,
    );
    let health = stat(gear.breastplate.enhancement, gear.breastplate.mastery) + stat(
        gear.gloves.enhancement,
        gear.gloves.mastery,
    );
    Stats { lethality, health }
}

} // verus!
