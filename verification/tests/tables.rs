use solver::tables::UpgradeTables;

fn sample_tables() -> UpgradeTables {
    let mut tables = UpgradeTables {
        hammer: [0; 20],
        mastery_mythic: [0; 20],
        mythril: [0; 100],
        mythic: [0; 100],
        required_mastery: [0; 100],
    };
    let mut mastery: usize = 1;
    while mastery <= 20 {
        tables.hammer[mastery - 1] = 10 * mastery as u32;
        if mastery > 10 {
            tables.mastery_mythic[mastery - 1] = mastery as u32 - 10;
        }
        mastery += 1;
    }
    let mut level: usize = 101;
    while level <= 200 {
        tables.required_mastery[level - 101] = 10 + (level as i32 - 100) / 20;
        level += 1;
    }
    tables.mythic[0] = 2;
    let milestones: [(usize, u32, u32); 5] =
        [(120, 10, 3), (140, 20, 5), (160, 30, 5), (180, 40, 10), (200, 50, 10)];
    for (at, mythril, mythic) in milestones {
        tables.mythril[at - 101] = mythril;
        tables.mythic[at - 101] = mythic;
    }
    tables
}

#[test]
fn sample_tables_are_well_formed() {
    assert!(sample_tables().is_well_formed());
}

#[test]
fn all_zero_tables_are_well_formed() {
    let tables = UpgradeTables {
        hammer: [0; 20],
        mastery_mythic: [0; 20],
        mythril: [0; 100],
        mythic: [0; 100],
        required_mastery: [0; 100],
    };
    assert!(tables.is_well_formed());
}

#[test]
fn required_mastery_must_be_a_mastery_level() {
    let mut tables = sample_tables();
    tables.required_mastery[99] = 21;
    assert!(!tables.is_well_formed());
    let mut tables = sample_tables();
    tables.required_mastery[0] = -1;
    assert!(!tables.is_well_formed());
    let mut tables = sample_tables();
    tables.required_mastery[99] = 20;
    assert!(tables.is_well_formed());
}

#[test]
fn required_mastery_must_not_fall() {
    let mut tables = sample_tables();
    tables.required_mastery[50] = 9;
    assert!(!tables.is_well_formed());
    let mut tables = sample_tables();
    tables.required_mastery[99] = 13;
    assert!(!tables.is_well_formed());
    let mut tables = sample_tables();
    tables.required_mastery[99] = 14;
    assert!(tables.is_well_formed());
}

#[test]
fn mythril_is_due_only_at_multiples_of_twenty_from_120() {
    let mut tables = sample_tables();
    tables.mythril[0] = 1;
    assert!(!tables.is_well_formed());
    let mut tables = sample_tables();
    tables.mythril[20] = 1;
    assert!(!tables.is_well_formed());
    let mut tables = sample_tables();
    tables.mythril[18] = 1;
    assert!(!tables.is_well_formed());
    let mut tables = sample_tables();
    tables.mythril[19] = 0;
    tables.mythril[39] = 7;
    assert!(tables.is_well_formed());
}

#[test]
fn mastery_costs_are_read_by_the_level_reached() {
    let tables = sample_tables();
    assert_eq!(tables.hammer_cost(1), 10);
    assert_eq!(tables.hammer_cost(10), 100);
    assert_eq!(tables.hammer_cost(20), 200);
    assert_eq!(tables.mastery_mythic_cost(10), 0);
    assert_eq!(tables.mastery_mythic_cost(11), 1);
    assert_eq!(tables.mastery_mythic_cost(20), 10);
}

#[test]
fn mastery_costs_are_zero_where_there_is_no_step() {
    let tables = sample_tables();
    assert_eq!(tables.hammer_cost(0), 0);
    assert_eq!(tables.hammer_cost(21), 0);
    assert_eq!(tables.hammer_cost(-5), 0);
    assert_eq!(tables.hammer_cost(i32::MAX), 0);
    assert_eq!(tables.mastery_mythic_cost(0), 0);
    assert_eq!(tables.mastery_mythic_cost(21), 0);
    assert_eq!(tables.mastery_mythic_cost(i32::MIN), 0);
}

#[test]
fn rare_costs_are_due_at_their_milestones_only() {
    let tables = sample_tables();
    assert_eq!(tables.mythril_cost(120), 10);
    assert_eq!(tables.mythril_cost(200), 50);
    assert_eq!(tables.mythril_cost(119), 0);
    assert_eq!(tables.mythril_cost(121), 0);
    assert_eq!(tables.mythril_cost(101), 0);
    assert_eq!(tables.mythril_cost(100), 0);
    assert_eq!(tables.mythril_cost(201), 0);
    assert_eq!(tables.mythril_cost(-1), 0);
    assert_eq!(tables.mythic_cost(101), 2);
    assert_eq!(tables.mythic_cost(102), 0);
    assert_eq!(tables.mythic_cost(120), 3);
    assert_eq!(tables.mythic_cost(180), 10);
    assert_eq!(tables.mythic_cost(100), 0);
    assert_eq!(tables.mythic_cost(0), 0);
    assert_eq!(tables.mythic_cost(201), 0);
}

#[test]
fn required_mastery_applies_past_level_100() {
    let tables = sample_tables();
    assert_eq!(tables.required_mastery(100), 0);
    assert_eq!(tables.required_mastery(0), 0);
    assert_eq!(tables.required_mastery(-3), 0);
    assert_eq!(tables.required_mastery(101), 10);
    assert_eq!(tables.required_mastery(119), 10);
    assert_eq!(tables.required_mastery(120), 11);
    assert_eq!(tables.required_mastery(200), 15);
    assert_eq!(tables.required_mastery(201), 0);
}

#[test]
fn required_mastery_never_falls_up_to_level_200() {
    let tables = sample_tables();
    let mut level: i32 = 0;
    while level < 200 {
        assert!(tables.required_mastery(level) <= tables.required_mastery(level + 1));
        level += 1;
    }
}

#[test]
fn mastery_range_cost_adds_the_steps() {
    let tables = sample_tables();
    assert_eq!(tables.mastery_range_cost(0, 0), (0, 0));
    assert_eq!(tables.mastery_range_cost(9, 10), (100, 0));
    assert_eq!(tables.mastery_range_cost(9, 12), (100 + 110 + 120, 1 + 2));
    assert_eq!(tables.mastery_range_cost(0, 20), (2100, 55));
    assert_eq!(tables.mastery_range_cost(20, 20), (0, 0));
}

#[test]
fn mastery_range_cost_holds_the_largest_tables() {
    let tables = UpgradeTables {
        hammer: [u32::MAX; 20],
        mastery_mythic: [u32::MAX; 20],
        mythril: [0; 100],
        mythic: [0; 100],
        required_mastery: [0; 100],
    };
    let all: u64 = 20 * u32::MAX as u64;
    assert_eq!(tables.mastery_range_cost(0, 20), (all, all));
}
