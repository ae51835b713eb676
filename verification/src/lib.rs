//! Greedy allocation of four upgrade resources over the gear of a roster of
//! heroes.
//!
//! A request names the heroes, each with four pieces of gear and two score
//! weights, and the balances of experience, hammers, mythril and mythics.
//! [`solve_greedy`] spends the balances, round after round, on the most
//! efficient enhancement step and the most efficient mastery step that they
//! cover, and reports the levels it arrives at. [`solve`] validates the
//! request first.
//!
//! All arithmetic is exact. Stat values are integers in units of
//! `1 / STAT_SCALE`, weights are non-negative integers of which only the
//! ratios matter, and efficiencies are compared as fractions. What the steps
//! cost beyond experience is balance data that the caller hands in as
//! [`UpgradeTables`].
pub mod efficiency;
pub mod engine;
pub mod greedy;
pub mod model;
pub mod report;
pub mod roster;
pub mod tables;
pub mod types;
pub mod valuation;

use crate::greedy::solution;
pub use crate::greedy::solve_greedy;
pub use crate::tables::UpgradeTables;
use crate::types::{InputData, OptimizationOutput};
use vstd::prelude::*;

verus! {

/// Why a request is turned down.
#[derive(Clone, Copy, Debug, PartialEq, Eq)]
pub enum SolveError {
    /// The balance tables are not well formed.
    MalformedTables,
    /// A balance of the request is negative.
    NegativeBalance,
    /// A level of the request is outside its range.
    LevelOutOfRange,
    /// The roster would hold more slots than the machine can index.
    TooManyHeroes,
}

impl SolveError {
    /// A line of text for the error.
    pub fn message(&self) -> (text: String)
        ensures
            text@ == match *self {
                SolveError::MalformedTables => "balance tables are not well formed"@,
                SolveError::NegativeBalance => "a resource balance is negative"@,
                SolveError::LevelOutOfRange => "a gear level is outside its range"@,
                SolveError::TooManyHeroes => "too many heroes"@,
            },
    {
        match self {
            SolveError::MalformedTables => "balance tables are not well formed".to_owned(),
            SolveError::NegativeBalance => "a resource balance is negative".to_owned(),
            SolveError::LevelOutOfRange => "a gear level is outside its range".to_owned(),
            SolveError::TooManyHeroes => "too many heroes".to_owned(),
        }
    }
}

/// The error that a request meets, if any: the first of malformed tables, a
/// negative balance, a level out of range, and too many heroes.
pub open spec fn rejection(input: InputData, tables: UpgradeTables) -> Option<SolveError> {
    if !tables.wf() {
        Some(SolveError::MalformedTables)
    } else if !input.balances_wf() {
        Some(SolveError::NegativeBalance)
    } else if !input.levels_wf() {
        Some(SolveError::LevelOutOfRange)
    } else if input.heroes@.len() * 4 > usize::MAX {
        Some(SolveError::TooManyHeroes)
    } else {
        None
    }
}

/// Validates a request and the balance tables, and allocates where both are
/// valid.
pub fn solve(input: InputData, tables: &UpgradeTables) -> (result: Result<
    OptimizationOutput,
    SolveError,
>)
    ensures
        match result {
            Ok(output) => rejection(input, *tables) is None && output.describes(
                input,
                solution(input, *tables).slots,
            ),
            Err(error) => rejection(input, *tables) == Some(error),
        },
{
    if !tables.is_well_formed() {
        return Err(SolveError::MalformedTables);
    }
    if !input.has_valid_balances() {
        return Err(SolveError::NegativeBalance);
    }
    if !input.has_valid_levels() {
        return Err(SolveError::LevelOutOfRange);
    }
    if input.heroes.len() > usize::MAX / 4 {
        return Err(SolveError::TooManyHeroes);
    }
    Ok(solve_greedy(input, tables))
}

} // verus!
