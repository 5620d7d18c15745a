//! The grade of a whole session: two points for each scenario that passed.

use vstd::prelude::*;
use vstd::string::StringExecFns;
use crate::runner::Outcome;
use crate::tally::{count, lemma_count_bounded};
use crate::text::{decimal, decimal_text};

verus! {

/// The points that one passing scenario is worth.
pub const POINTS_PER_SCENARIO: usize = 2;

/// The score of a scenario that ended with `outcome`: 1 where it passed,
/// else 0.
pub open spec fn score_of_outcome(outcome: Outcome) -> nat {
    if outcome == Outcome::Passed {
        1
    } else {
        0
    }
}

/// The sum of the scores of `outcomes`.
pub open spec fn score_sum(outcomes: Seq<Outcome>) -> nat
    decreases outcomes.len(),
{
    if outcomes.len() == 0 {
        0
    } else {
        score_sum(outcomes.drop_last()) + score_of_outcome(outcomes.last())
    }
}

/// The grade for `outcomes`: twice the sum of their scores.
pub open spec fn grade_of(outcomes: Seq<Outcome>) -> nat {
    POINTS_PER_SCENARIO as nat * score_sum(outcomes)
}

/// The scores add up to the number of scenarios that passed.
pub proof fn lemma_score_sum_counts_passes(outcomes: Seq<Outcome>)
    ensures
        score_sum(outcomes) == count(outcomes, Outcome::Passed),
        score_sum(outcomes) <= outcomes.len(),
    decreases outcomes.len(),
{
    lemma_count_bounded(outcomes, Outcome::Passed);
    if outcomes.len() > 0 {
        lemma_score_sum_counts_passes(outcomes.drop_last());
    }
}

/// A grade is even, twice the number of scenarios that passed, and at most
/// twice the number of scenarios. For five scenarios it is one of 0, 2, 4,
/// 6, 8 and 10.
pub proof fn lemma_grade_is_twice_the_passes(outcomes: Seq<Outcome>)
    ensures
        grade_of(outcomes) == 2 * count(outcomes, Outcome::Passed),
        grade_of(outcomes) % 2 == 0,
        grade_of(outcomes) <= 2 * outcomes.len(),
        outcomes.len() == 5 ==> {
            let g = grade_of(outcomes);
            g == 0 || g == 2 || g == 4 || g == 6 || g == 8 || g == 10
        },
{
    lemma_score_sum_counts_passes(outcomes);
}

/// The score of a scenario that ended with `outcome`: 1 where it passed,
/// else 0.
pub fn score(outcome: Outcome) -> (n: usize)
    ensures
        n == score_of_outcome(outcome),
{
    match outcome {
        Outcome::Passed => 1,
        _ => 0,
    }
}

/// The grade for `outcomes`: two points for each scenario that passed.
pub fn grade(outcomes: &Vec<Outcome>) -> (g: usize)
    requires
        2 * outcomes.len() <= usize::MAX,
    ensures
        g == grade_of(outcomes@),
        g == 2 * count(outcomes@, Outcome::Passed),
        g % 2 == 0,
        g <= 2 * outcomes.len(),
{
    let mut sum: usize = 0;
    let mut i: usize = 0;
    while i < outcomes.len()
        invariant
            i <= outcomes.len(),
            2 * outcomes.len() <= usize::MAX,
            sum <= i,
            sum == score_sum(outcomes@.take(i as int)),
        decreases outcomes.len() - i,
    {
        assert(outcomes@.take(i + 1).drop_last() =~= outcomes@.take(i as int));
        sum = sum + score(outcomes[i]);
        i += 1;
    }
    proof {
        assert(outcomes@.take(outcomes.len() as int) =~= outcomes@);
        lemma_grade_is_twice_the_passes(outcomes@);
    }
    POINTS_PER_SCENARIO * sum
}

/// The lines of the report of a session. Where the submission did not
/// compile, no scenario counts: the report says so and gives a score of 0.
/// Else the report is the grade, as a decimal numeral.
pub open spec fn report_of(compiled: bool, outcomes: Seq<Outcome>) -> Seq<Seq<char>> {
    if compiled {
        seq![decimal(grade_of(outcomes))]
    } else {
        seq!["Failed to compile"@, "score = 0"@]
    }
}

/// The lines to print at the end of a session: the grade for `outcomes`
/// where the submission compiled, and else the notice of the failure with a
/// score of 0, whatever `outcomes` holds.
pub fn report(compiled: bool, outcomes: &Vec<Outcome>) -> (lines: Vec<String>)
    requires
        2 * outcomes.len() <= usize::MAX,
    ensures
        lines.deep_view() == report_of(compiled, outcomes@),
{
    let mut lines: Vec<String> = Vec::new();
    if compiled {
        lines.push(decimal_text(grade(outcomes)));
    } else {
        lines.push(String::from_str("Failed to compile"));
        lines.push(String::from_str("score = 0"));
    }
    assert(lines.deep_view() =~= report_of(compiled, outcomes@));
    lines
}

} // verus!
