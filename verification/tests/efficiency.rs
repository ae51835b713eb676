use solver::efficiency::Efficiency;

#[test]
fn finite_efficiencies_compare_as_fractions() {
    let third = Efficiency { gain: 1, cost: 3 };
    let half = Efficiency { gain: 2, cost: 4 };
    assert!(half.exceeds(&third));
    assert!(!third.exceeds(&half));
    let other_half = Efficiency { gain: 7, cost: 14 };
    assert!(!half.exceeds(&other_half));
    assert!(!other_half.exceeds(&half));
}

#[test]
fn zero_cost_is_infinite() {
    let free = Efficiency { gain: 0, cost: 0 };
    let huge = Efficiency { gain: u64::MAX, cost: 1 };
    assert!(free.exceeds(&huge));
    assert!(!huge.exceeds(&free));
}

#[test]
fn no_infinite_efficiency_exceeds_another() {
    let small = Efficiency { gain: 1, cost: 0 };
    let large = Efficiency { gain: 1_000_000, cost: 0 };
    assert!(!small.exceeds(&large));
    assert!(!large.exceeds(&small));
    assert!(!small.exceeds(&small));
}

#[test]
fn zero_gain_is_the_least_finite_efficiency() {
    let nothing = Efficiency { gain: 0, cost: 5 };
    let little = Efficiency { gain: 1, cost: u64::MAX };
    assert!(little.exceeds(&nothing));
    assert!(!nothing.exceeds(&little));
    assert!(!nothing.exceeds(&Efficiency { gain: 0, cost: 9 }));
}

#[test]
fn comparison_is_exact_at_the_edge_of_the_range() {
    let a = Efficiency { gain: u64::MAX, cost: u64::MAX - 1 };
    let b = Efficiency { gain: u64::MAX - 1, cost: u64::MAX - 2 };
    // a = 1 + 1/(M-1), b = 1 + 1/(M-2): b is the greater by a hair.
    assert!(b.exceeds(&a));
    assert!(!a.exceeds(&b));
}
