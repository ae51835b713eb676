use solver::greedy::solve_greedy;
use solver::report::{hero_result, report, weighted_score};
use solver::roster::{build_roster, reset_policy};
use solver::engine::{EquipmentSlot, ResourceBudget};
use solver::tables::UpgradeTables;
use solver::types::{
    Gear, GearResult, HeroGear, HeroWeights, InputData, OptimizationOutput, StatWeights, Stats,
};
use solver::valuation::exp_cost;
use solver::{solve, SolveError};

fn sample_tables() -> UpgradeTables {
    let mut tables = UpgradeTables {
        hammer: [0; 20],
        mastery_mythic: [0; 20],
        mythril: [0; 100],
        mythic: [0; 100],
        required_mastery: [0; 100],
    };
    let mut mastery: usize = 1;
    while mastery <= 20 {
        tables.hammer[mastery - 1] = 10 * mastery as u32;
        if mastery > 10 {
            tables.mastery_mythic[mastery - 1] = mastery as u32 - 10;
        }
        mastery += 1;
    }
    let mut level: usize = 101;
    while level <= 200 {
        tables.required_mastery[level - 101] = 10 + (level as i32 - 100) / 20;
        level += 1;
    }
    tables.mythic[0] = 2;
    let milestones: [(usize, u32, u32); 5] =
        [(120, 10, 3), (140, 20, 5), (160, 30, 5), (180, 40, 10), (200, 50, 10)];
    for (at, mythril, mythic) in milestones {
        tables.mythril[at - 101] = mythril;
        tables.mythic[at - 101] = mythic;
    }
    tables
}

const FULL: Gear = Gear { mastery: 20, enhancement: 200 };

fn gear(mastery: i32, enhancement: i32) -> Gear {
    Gear { mastery, enhancement }
}

fn hero(name: &str, pieces: [Gear; 4], lethality: u32, health: u32) -> HeroWeights {
    HeroWeights {
        name: name.to_string(),
        gear: HeroGear {
            helmet: pieces[0],
            gloves: pieces[1],
            breastplate: pieces[2],
            boots: pieces[3],
        },
        weights: StatWeights { lethality, health },
    }
}

fn request(heroes: Vec<HeroWeights>, exp: i32, hammers: i32, mythics: i32, mythril: i32) -> InputData {
    InputData { heroes, exp, hammers, mythics, mythril }
}

fn recommended(output: &OptimizationOutput, hero: usize) -> Vec<(i32, i32)> {
    output.results[hero]
        .gear
        .iter()
        .map(|piece: &GearResult| (piece.recommended_mastery, piece.recommended_enhancement))
        .collect()
}

#[test]
fn test_solve_greedy() {
    let hero = HeroWeights {
        name: "TestHero".to_string(),
        gear: HeroGear {
            helmet: Gear { mastery: 0, enhancement: 0 },
            gloves: Gear { mastery: 0, enhancement: 0 },
            breastplate: Gear { mastery: 0, enhancement: 0 },
            boots: Gear { mastery: 0, enhancement: 0 },
        },
        weights: StatWeights { lethality: 1, health: 1 },
    };

    let input = InputData { heroes: vec![hero], exp: 1000, hammers: 0, mythics: 0, mythril: 0 };

    let output: OptimizationOutput = solve(input, &sample_tables()).unwrap();

    assert_eq!(output.results.len(), 1);
    assert!(output.total_after_score > output.total_before_score);

    let mut used_exp = 0;
    for res in &output.results[0].gear {
        used_exp += exp_cost(res.recommended_enhancement);
    }
    assert!(used_exp <= 1000);
}

#[test]
fn a_thousand_experience_on_a_fresh_hero() {
    let input = request(vec![hero("TestHero", [gear(0, 0); 4], 1, 1)], 1000, 0, 0, 0);
    let output = solve_greedy(input, &sample_tables());
    assert_eq!(recommended(&output, 0), vec![(0, 9), (0, 9), (0, 8), (0, 8)]);
    assert_eq!(output.total_before_score, 60_000);
    assert_eq!(output.total_after_score, 71_900);
    let result = &output.results[0];
    assert_eq!(result.hero_name, "TestHero");
    assert_eq!(result.before_stats, Stats { lethality: 30_000, health: 30_000 });
    assert_eq!(result.after_stats, Stats { lethality: 35_950, health: 35_950 });
    assert_eq!(result.before_score, 60_000);
    assert_eq!(result.after_score, 71_900);
}

#[test]
fn report_names_the_pieces_in_roster_order() {
    let input = request(
        vec![hero("Ada", [gear(1, 2), gear(3, 4), gear(5, 6), gear(7, 8)], 1, 1)],
        0,
        0,
        0,
        0,
    );
    let output = solve_greedy(input, &sample_tables());
    let names: Vec<&str> =
        output.results[0].gear.iter().map(|piece: &GearResult| piece.gear_type.as_str()).collect();
    assert_eq!(names, vec!["helmet", "gloves", "breastplate", "boots"]);
    let current: Vec<(i32, i32)> = output.results[0]
        .gear
        .iter()
        .map(|piece: &GearResult| (piece.current_mastery, piece.current_enhancement))
        .collect();
    assert_eq!(current, vec![(1, 2), (3, 4), (5, 6), (7, 8)]);
}

#[test]
fn mastery_gate_holds_without_hammers() {
    let input = request(vec![hero("Gate", [gear(9, 100), FULL, FULL, FULL], 1, 1)], i32::MAX, 0, 0, 0);
    let output = solve_greedy(input, &sample_tables());
    assert_eq!(recommended(&output, 0)[0], (9, 100));
    assert_eq!(output.total_before_score, 995_000);
    assert_eq!(output.total_after_score, 995_000);
}

#[test]
fn mastery_gate_opens_with_hammers_and_mythics() {
    let input =
        request(vec![hero("Gate", [gear(9, 100), FULL, FULL, FULL], 1, 1)], i32::MAX, 100, 2, 0);
    let output = solve_greedy(input, &sample_tables());
    assert_eq!(recommended(&output, 0)[0], (10, 119));
    assert_eq!(output.total_after_score, 1_019_000);
}

#[test]
fn ample_resources_fill_every_track() {
    let input = request(
        vec![hero("Gate", [gear(9, 100), FULL, FULL, FULL], 1, 1)],
        i32::MAX,
        100_000,
        1000,
        1000,
    );
    let output = solve_greedy(input, &sample_tables());
    assert_eq!(recommended(&output, 0), vec![(20, 200); 4]);
    assert_eq!(output.total_after_score, 1_200_000);
}

#[test]
fn mythril_milestone_blocks_without_mythril() {
    let input =
        request(vec![hero("Rare", [gear(11, 119), FULL, FULL, FULL], 1, 1)], i32::MAX, 0, 100, 0);
    let output = solve_greedy(input, &sample_tables());
    assert_eq!(recommended(&output, 0)[0], (11, 119));
}

#[test]
fn mythril_milestone_opens_with_mythril() {
    let input =
        request(vec![hero("Rare", [gear(11, 119), FULL, FULL, FULL], 1, 1)], i32::MAX, 0, 3, 10);
    let output = solve_greedy(input, &sample_tables());
    assert_eq!(recommended(&output, 0)[0], (11, 139));
    assert_eq!(output.total_before_score, 1_024_950);
    assert_eq!(output.total_after_score, 1_045_950);
}

#[test]
fn mythic_milestone_blocks_without_mythics() {
    let input =
        request(vec![hero("Rare", [gear(10, 100), FULL, FULL, FULL], 1, 1)], i32::MAX, 0, 0, 100);
    let output = solve_greedy(input, &sample_tables());
    assert_eq!(recommended(&output, 0)[0], (10, 100));
}

#[test]
fn mythic_milestone_opens_with_mythics() {
    let input =
        request(vec![hero("Rare", [gear(10, 100), FULL, FULL, FULL], 1, 1)], i32::MAX, 0, 2, 0);
    let output = solve_greedy(input, &sample_tables());
    assert_eq!(recommended(&output, 0)[0], (10, 119));
    assert_eq!(output.total_after_score, 1_019_000);
}

#[test]
fn level_100_is_reclaimed_and_spent_again() {
    let input = request(
        vec![hero("Reset", [gear(0, 100), gear(0, 0), gear(0, 0), gear(0, 0)], 1, 1)],
        0,
        0,
        0,
        0,
    );
    let output = solve_greedy(input, &sample_tables());
    assert_eq!(recommended(&output, 0), vec![(0, 66), (0, 65), (0, 65), (0, 65)]);
    assert_eq!(output.results[0].gear[0].current_enhancement, 100);
    assert_eq!(output.total_before_score, 95_000);
    assert_eq!(output.total_after_score, 151_350);
    let spent: i32 = exp_cost(66) + 3 * exp_cost(65);
    assert!(spent <= exp_cost(100));
    assert_eq!(exp_cost(100) - spent, 60);
}

#[test]
fn level_101_is_kept() {
    let input = request(
        vec![hero("Keep", [gear(0, 101), gear(0, 0), gear(0, 0), gear(0, 0)], 1, 1)],
        0,
        0,
        0,
        0,
    );
    let output = solve_greedy(input, &sample_tables());
    assert_eq!(recommended(&output, 0), vec![(0, 101), (0, 0), (0, 0), (0, 0)]);
    assert_eq!(output.total_before_score, 95_500);
    assert_eq!(output.total_after_score, 95_500);
    let input = request(
        vec![hero("Keep", [gear(0, 101), gear(0, 0), gear(0, 0), gear(0, 0)], 1, 1)],
        5000,
        0,
        0,
        0,
    );
    let output = solve_greedy(input, &sample_tables());
    assert_eq!(recommended(&output, 0), vec![(0, 101), (0, 25), (0, 24), (0, 24)]);
    assert_eq!(output.total_after_score, 121_050);
}

#[test]
fn reset_policy_turns_at_the_threshold() {
    assert_eq!(reset_policy(&gear(0, 100)), (0, 73320));
    assert_eq!(reset_policy(&gear(7, 101)), (101, 0));
    assert_eq!(reset_policy(&gear(7, 200)), (200, 0));
    assert_eq!(reset_policy(&gear(7, 0)), (0, 0));
    assert_eq!(reset_policy(&gear(7, 50)), (0, 8440));
}

#[test]
fn two_heroes_share_the_budget() {
    let input = request(
        vec![
            hero("First", [gear(3, 40), gear(5, 101), gear(0, 7), gear(20, 200)], 3, 1),
            hero("Second", [gear(10, 100), gear(12, 130), gear(1, 1), gear(0, 0)], 1, 2),
        ],
        50_000,
        500,
        20,
        30,
    );
    let output = solve_greedy(input, &sample_tables());
    assert_eq!(output.results.len(), 2);
    assert_eq!(output.results[0].hero_name, "First");
    assert_eq!(output.results[1].hero_name, "Second");
    assert_eq!(recommended(&output, 0), vec![(5, 94), (6, 101), (1, 53), (20, 200)]);
    assert_eq!(recommended(&output, 1), vec![(10, 68), (14, 130), (3, 75), (1, 52)]);
    assert_eq!(output.results[0].before_stats, Stats { lethality: 337_700, health: 93_200 });
    assert_eq!(output.results[0].after_stats, Stats { lethality: 371_850, health: 117_705 });
    assert_eq!(output.results[0].before_score, 1_106_300);
    assert_eq!(output.results[0].after_score, 1_233_255);
    assert_eq!(output.results[1].before_stats, Stats { lethality: 115_000, health: 159_885 });
    assert_eq!(output.results[1].after_stats, Stats { lethality: 114_120, health: 209_625 });
    assert_eq!(output.results[1].before_score, 434_770);
    assert_eq!(output.results[1].after_score, 533_370);
    assert_eq!(output.total_before_score, 1_541_070);
    assert_eq!(output.total_after_score, 1_766_625);
}

#[test]
fn levels_stay_in_range_and_above_their_start() {
    let heroes = vec![
        hero("First", [gear(3, 40), gear(5, 101), gear(0, 7), gear(20, 200)], 3, 1),
        hero("Second", [gear(10, 100), gear(12, 130), gear(1, 1), gear(0, 0)], 1, 2),
    ];
    let output = solve_greedy(request(heroes, 50_000, 500, 20, 30), &sample_tables());
    for result in &output.results {
        assert_eq!(result.gear.len(), 4);
        for piece in &result.gear {
            assert!(0 <= piece.recommended_enhancement && piece.recommended_enhancement <= 200);
            assert!(0 <= piece.recommended_mastery && piece.recommended_mastery <= 20);
            assert!(piece.recommended_mastery >= piece.current_mastery);
            if piece.current_enhancement >= 101 {
                assert!(piece.recommended_enhancement >= piece.current_enhancement);
            }
        }
    }
}

#[test]
fn zero_weights_score_nothing_but_still_upgrade() {
    let input = request(vec![hero("Idle", [gear(0, 0); 4], 0, 0)], 100, 30, 0, 0);
    let output = solve_greedy(input, &sample_tables());
    assert_eq!(recommended(&output, 0), vec![(2, 5), (0, 0), (0, 0), (0, 0)]);
    assert_eq!(output.total_before_score, 0);
    assert_eq!(output.total_after_score, 0);
    assert_eq!(output.results[0].after_stats, Stats { lethality: 35_100, health: 30_000 });
}

#[test]
fn no_heroes_no_results() {
    let output = solve_greedy(request(Vec::new(), 100, 30, 0, 0), &sample_tables());
    assert!(output.results.is_empty());
    assert_eq!(output.total_before_score, 0);
    assert_eq!(output.total_after_score, 0);
}

#[test]
fn build_roster_enters_four_slots_per_hero_and_adds_the_refunds() {
    let input = request(
        vec![
            hero("First", [gear(3, 40), gear(5, 101), gear(0, 7), gear(20, 200)], 3, 1),
            hero("Second", [gear(10, 100), gear(12, 130), gear(1, 1), gear(0, 0)], 1, 2),
        ],
        50_000,
        500,
        20,
        30,
    );
    let (slots, budget) = build_roster(&input);
    let first = StatWeights { lethality: 3, health: 1 };
    let second = StatWeights { lethality: 1, health: 2 };
    assert_eq!(
        slots,
        vec![
            EquipmentSlot { is_lethality: true, mastery: 3, enhancement: 0, weights: first },
            EquipmentSlot { is_lethality: false, mastery: 5, enhancement: 101, weights: first },
            EquipmentSlot { is_lethality: false, mastery: 0, enhancement: 0, weights: first },
            EquipmentSlot { is_lethality: true, mastery: 20, enhancement: 200, weights: first },
            EquipmentSlot { is_lethality: true, mastery: 10, enhancement: 0, weights: second },
            EquipmentSlot { is_lethality: false, mastery: 12, enhancement: 130, weights: second },
            EquipmentSlot { is_lethality: false, mastery: 1, enhancement: 0, weights: second },
            EquipmentSlot { is_lethality: true, mastery: 0, enhancement: 0, weights: second },
        ]
    );
    let refunds: i32 = exp_cost(40) + exp_cost(7) + exp_cost(100) + exp_cost(1);
    assert_eq!(
        budget,
        ResourceBudget { exp: (50_000 + refunds) as u128, hammers: 500, mythril: 30, mythics: 20 }
    );
}

#[test]
fn refunds_may_exceed_what_a_balance_of_the_request_can_hold() {
    let mut heroes: Vec<HeroWeights> = Vec::new();
    let mut count: usize = 0;
    while count < 30_000 {
        heroes.push(hero("Many", [gear(0, 100); 4], 1, 1));
        count += 1;
    }
    let (slots, budget) = build_roster(&request(heroes, i32::MAX, 0, 0, 0));
    assert_eq!(slots.len(), 120_000);
    assert_eq!(budget.exp, i32::MAX as u128 + 120_000 * 73_320);
    assert!(budget.exp > u32::MAX as u128);
}

#[test]
fn report_reads_the_roster_four_slots_per_hero() {
    let input = request(vec![hero("Ada", [gear(1, 2), gear(3, 4), gear(5, 6), gear(7, 8)], 2, 3)], 0, 0, 0, 0);
    let weights = StatWeights { lethality: 2, health: 3 };
    let slots = vec![
        EquipmentSlot { is_lethality: true, mastery: 2, enhancement: 10, weights },
        EquipmentSlot { is_lethality: false, mastery: 4, enhancement: 20, weights },
        EquipmentSlot { is_lethality: false, mastery: 6, enhancement: 30, weights },
        EquipmentSlot { is_lethality: true, mastery: 8, enhancement: 40, weights },
    ];
    let output = report(&input, &slots);
    assert_eq!(recommended(&output, 0), vec![(2, 10), (4, 20), (6, 30), (8, 40)]);
    // lethality: helmet and boots; health: breastplate and gloves
    let before: i128 = 2 * (1570 * 11 + 1780 * 17) + 3 * (1710 * 15 + 1640 * 13);
    let after: i128 = 2 * (1850 * 12 + 2900 * 18) + 3 * (2550 * 16 + 2200 * 14);
    assert_eq!(output.results[0].before_score, before);
    assert_eq!(output.results[0].after_score, after);
    assert_eq!(output.total_before_score, before);
    assert_eq!(output.total_after_score, after);
}

#[test]
fn hero_result_reports_both_gears() {
    let worn = hero("Ada", [gear(0, 0), gear(0, 0), gear(0, 0), gear(0, 0)], 5, 7);
    let after = HeroGear {
        helmet: gear(0, 100),
        gloves: gear(10, 0),
        breastplate: gear(0, 101),
        boots: gear(0, 0),
    };
    let result = hero_result(&worn, &after);
    assert_eq!(result.hero_name, "Ada");
    assert_eq!(result.before_stats, Stats { lethality: 30_000, health: 30_000 });
    assert_eq!(result.after_stats, Stats { lethality: 65_000, health: 80_500 });
    assert_eq!(result.before_score, 360_000);
    assert_eq!(result.after_score, 5 * 65_000 + 7 * 80_500);
    assert_eq!(result.gear.len(), 4);
    assert_eq!(result.gear[1].gear_type, "gloves");
    assert_eq!(result.gear[1].recommended_mastery, 10);
    assert_eq!(result.gear[2].gear_type, "breastplate");
    assert_eq!(result.gear[2].recommended_enhancement, 101);
    assert_eq!(result.gear[3].gear_type, "boots");
}

#[test]
fn weighted_score_multiplies_each_stat_by_its_weight() {
    let stats = Stats { lethality: 35_950, health: 30_000 };
    assert_eq!(weighted_score(&stats, &StatWeights { lethality: 3, health: 2 }), 167_850);
    assert_eq!(weighted_score(&stats, &StatWeights { lethality: 0, health: 0 }), 0);
    let large = Stats { lethality: 600_000, health: 600_000 };
    let heavy = StatWeights { lethality: u32::MAX, health: u32::MAX };
    assert_eq!(weighted_score(&large, &heavy), 1_200_000 * u32::MAX as i128);
    assert_eq!(weighted_score(&Stats { lethality: -5, health: 1 }, &StatWeights { lethality: 2, health: 3 }), -7);
}

#[test]
fn solve_turns_down_malformed_tables() {
    let mut tables = sample_tables();
    tables.required_mastery[3] = 25;
    let input = request(vec![hero("A", [gear(0, 0); 4], 1, 1)], -1, 0, 0, 0);
    assert_eq!(solve(input, &tables).unwrap_err(), SolveError::MalformedTables);
}

#[test]
fn solve_turns_down_a_negative_balance() {
    let tables = sample_tables();
    let heroes = vec![hero("A", [gear(0, 0), gear(0, 201), gear(0, 0), gear(0, 0)], 1, 1)];
    assert_eq!(
        solve(request(heroes.clone(), -1, 0, 0, 0), &tables).unwrap_err(),
        SolveError::NegativeBalance
    );
    assert_eq!(
        solve(request(heroes.clone(), 0, -1, 0, 0), &tables).unwrap_err(),
        SolveError::NegativeBalance
    );
    assert_eq!(
        solve(request(heroes.clone(), 0, 0, -1, 0), &tables).unwrap_err(),
        SolveError::NegativeBalance
    );
    assert_eq!(
        solve(request(heroes, 0, 0, 0, i32::MIN), &tables).unwrap_err(),
        SolveError::NegativeBalance
    );
}

#[test]
fn solve_turns_down_a_level_out_of_range() {
    let tables = sample_tables();
    let cases: [Gear; 4] = [gear(0, 201), gear(21, 0), gear(-1, 0), gear(0, -1)];
    for bad in cases {
        let heroes = vec![
            hero("A", [gear(0, 0); 4], 1, 1),
            hero("B", [gear(0, 0), gear(0, 0), bad, gear(0, 0)], 1, 1),
        ];
        assert_eq!(
            solve(request(heroes, 10, 10, 10, 10), &tables).unwrap_err(),
            SolveError::LevelOutOfRange
        );
    }
}

#[test]
fn solve_allocates_a_valid_request() {
    let input = request(vec![hero("TestHero", [gear(0, 0); 4], 1, 1)], 1000, 0, 0, 0);
    let output = solve(input, &sample_tables()).unwrap();
    assert_eq!(recommended(&output, 0), vec![(0, 9), (0, 9), (0, 8), (0, 8)]);
    let edge =
        request(vec![hero("Edge", [gear(20, 200), gear(0, 0), gear(20, 0), gear(0, 200)], 1, 1)], 0, 0, 0, 0);
    assert_eq!(recommended(&solve(edge, &sample_tables()).unwrap(), 0)[3], (0, 200));
}

#[test]
fn error_messages_name_the_fault() {
    assert_eq!(SolveError::MalformedTables.message(), "balance tables are not well formed");
    assert_eq!(SolveError::NegativeBalance.message(), "a resource balance is negative");
    assert_eq!(SolveError::LevelOutOfRange.message(), "a gear level is outside its range");
    assert_eq!(SolveError::TooManyHeroes.message(), "too many heroes");
}

#[test]
fn request_validity_is_balances_and_levels() {
    let good = request(vec![hero("A", [gear(20, 200), gear(0, 0), gear(7, 100), gear(3, 101)], 1, 1)], 0, 0, 0, 0);
    assert!(good.has_valid_balances());
    assert!(good.has_valid_levels());
    assert!(good.is_valid());
    let overdrawn = request(Vec::new(), 5, 5, -5, 5);
    assert!(!overdrawn.has_valid_balances());
    assert!(overdrawn.has_valid_levels());
    assert!(!overdrawn.is_valid());
    let high = request(vec![hero("A", [gear(0, 0), gear(0, 0), gear(0, 0), gear(0, 201)], 1, 1)], 0, 0, 0, 0);
    assert!(high.has_valid_balances());
    assert!(!high.has_valid_levels());
    assert!(!high.is_valid());
    assert!(gear(20, 200).is_valid());
    assert!(!gear(21, 200).is_valid());
    assert!(high.heroes[0].gear.helmet.is_valid());
    assert!(!high.heroes[0].gear.is_valid());
}
