//! From a request to a response: the roster is built under the reset policy,
//! the engine spends the budget on it, and the outcome is reported hero by
//! hero.
use crate::engine::{optimize, roster_model};
use crate::model::Allocation;
use crate::report::{hero_gear_at, report};
use crate::roster::{
    build_roster, lemma_reset_conserves, lemma_start_wf, start_allocation, start_level_spec,
    start_slot, total_invested,
};
use crate::tables::UpgradeTables;
use crate::types::{InputData, OptimizationOutput};
use vstd::prelude::*;

verus! {

/// The allocation that a request ends in.
pub open spec fn solution(input: InputData, tables: UpgradeTables) -> Allocation {
    start_allocation(input).run(tables)
}

/// What holds of the allocation that a valid request ends in: it has the
/// request's slots, no balance is negative or above what the request and the
/// refunds gave, every level is in its range and at least what the slot
/// entered the roster with, no step is left that the balances cover, and
/// the experience that stands in the final levels is at most the request's
/// experience and what stood in the gear.
pub proof fn lemma_solution(input: InputData, tables: UpgradeTables)
    requires
        input.wf(),
        tables.wf(),
    ensures
        solution(input, tables).wf(),
        start_allocation(input).leads_to(solution(input, tables)),
        solution(input, tables).is_settled(tables),
        solution(input, tables).slots.len() == 4 * input.heroes@.len(),
        solution(input, tables).budget.exp + solution(input, tables).invested() == input.exp
            + total_invested(input.heroes@),
        solution(input, tables).invested() <= input.exp + total_invested(input.heroes@),
        solution(input, tables).score() >= start_allocation(input).score(),
{
    lemma_start_wf(input);
    lemma_reset_conserves(input.heroes@);
    start_allocation(input).lemma_run(tables);
}

/// A piece that enters the roster at the reset threshold or above never ends
/// below its own level; a piece below the threshold enters at level zero.
pub proof fn lemma_reset_policy(input: InputData, tables: UpgradeTables, hero: int, position: int)
    requires
        input.wf(),
        tables.wf(),
        0 <= hero < input.heroes@.len(),
        0 <= position < 4,
    ensures
        ({
            let before = input.heroes@[hero].gear.piece(position);
            let entered = start_allocation(input).slots[4 * hero + position];
            let after = solution(input, tables).slots[4 * hero + position];
            &&& before.enhancement >= 101 ==> entered.enhancement == before.enhancement
                && after.enhancement >= before.enhancement
            &&& before.enhancement < 101 ==> entered.enhancement == 0
            &&& entered.mastery == before.mastery
            &&& after.mastery >= before.mastery
        }),
{
    lemma_solution(input, tables);
    let k = 4 * hero + position;
    assert(start_allocation(input).slots[k] == start_slot(input.heroes@[k / 4], k % 4));
    assert(start_allocation(input).slots[k].grows_to(solution(input, tables).slots[k]));
}

/// In the report of a valid request every recommended level lies in its
/// range and is no lower than the level the piece entered the roster with.
pub proof fn lemma_report_levels(
    output: OptimizationOutput,
    input: InputData,
    tables: UpgradeTables,
    hero: int,
    position: int,
)
    requires
        input.wf(),
        tables.wf(),
        output.describes(input, solution(input, tables).slots),
        0 <= hero < input.heroes@.len(),
        0 <= position < 4,
    ensures
        ({
            let entry = output.results@[hero].gear@[position];
            &&& start_level_spec(entry.current_enhancement as int)
                <= entry.recommended_enhancement <= 200
            &&& entry.current_mastery <= entry.recommended_mastery <= 20
        }),
{
    lemma_reset_policy(input, tables, hero, position);
    lemma_solution(input, tables);
    let outcome = solution(input, tables).slots;
    assert(output.results@[hero].describes(input.heroes@[hero], hero_gear_at(outcome, hero)));
    assert(output.results@[hero].gear@[position].describes(
        position,
        input.heroes@[hero].gear.piece(position),
        hero_gear_at(outcome, hero).piece(position),
    ));
    assert(outcome[4 * hero + position].wf());
}

/// Allocates the four resources of a request to its heroes' gear and reports
/// the outcome.
///
/// Every piece enters the roster under the reset policy. Then, round after
/// round, the most efficient enhancement step and the most efficient mastery
/// step that the balances cover are committed, until neither track has one.
pub fn solve_greedy(input: InputData, tables: &UpgradeTables) -> (output: OptimizationOutput)
    requires
        input.wf(),
        tables.wf(),
        input.heroes@.len() * 4 <= usize::MAX,
    ensures
        output.describes(input, solution(input, *tables).slots),
        forall|i: int, p: int|
            0 <= i < input.heroes@.len() && 0 <= p < 4 ==> {
                let entry = #[trigger] output.results@[i].gear@[p];
                &&& start_level_spec(entry.current_enhancement as int)
                    <= entry.recommended_enhancement <= 200
                &&& entry.current_mastery <= entry.recommended_mastery <= 20
            },
{
    let start = build_roster(&input);
    let mut slots = start.0;
    let mut budget = start.1;
    proof {
        lemma_start_wf(input);
        lemma_solution(input, *tables);
    }
    optimize(&mut slots, &mut budget, tables);
    assert forall|k: int| 0 <= k < slots@.len() implies (#[trigger] slots@[k]).wf() by {
        assert(roster_model(slots@)[k].wf());
    }
    let output = report(&input, &slots);
    proof {
        assert forall|i: int, p: int| 0 <= i < input.heroes@.len() && 0 <= p < 4 implies {
            let entry = #[trigger] output.results@[i].gear@[p];
            &&& start_level_spec(entry.current_enhancement as int) <= entry.recommended_enhancement
                <= 200
            &&& entry.current_mastery <= entry.recommended_mastery <= 20
        } by {
            lemma_report_levels(output, input, *tables, i, p);
        }
    }
    output
}

} // verus!
