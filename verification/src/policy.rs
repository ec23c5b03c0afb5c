//! Completion-check policy: decides on which tool-call rounds the model is
//! additionally asked for a structured "is the task complete?" verdict.

use vstd::prelude::*;

verus! {

/// Calculate a dynamic completion threshold based on loop count.
/// As the loop count increases, a completion check becomes more likely.
pub fn determine_completion_threshold(loop_count: usize) -> (t: usize)
    ensures
        t == spec_completion_threshold(loop_count as int),
{
    if loop_count <= 2 {
        1000
    } else if loop_count <= 6 {
        10
    } else if loop_count <= 15 {
        5
    } else if loop_count <= 25 {
        3
    } else if loop_count <= 40 {
        2
    } else {
        1
    }
}

/// The completion-check interval for a given round: large at first (hardly
/// ever check), shrinking to 1 (always check) after round 40.
pub open spec fn spec_completion_threshold(loop_count: int) -> int {
    if loop_count <= 2 {
        1000
    } else if loop_count <= 6 {
        10
    } else if loop_count <= 15 {
        5
    } else if loop_count <= 25 {
        3
    } else if loop_count <= 40 {
        2
    } else {
        1
    }
}

/// When a round also asks whether the task is finished:
/// always within 5 rounds of the cap, periodically by `threshold`, and at a
/// few fixed checkpoints.
pub open spec fn spec_should_request_completion(
    loop_count: int,
    max_loops: int,
    threshold: int,
) -> bool {
    if loop_count >= max_loops - 5 {
        true
    } else if threshold == 1 || (threshold != 0 && loop_count % threshold == 0) {
        true
    } else {
        loop_count == 5 || loop_count == 10 || loop_count == 15 || loop_count == 20 || loop_count
            == 30 || loop_count == 50 || loop_count == 75
    }
}

/// Determine if the model should be asked whether the task is complete.
pub fn should_request_completion(loop_count: usize, max_loops: usize, threshold: usize) -> (b:
    bool)
    ensures
        b == spec_should_request_completion(loop_count as int, max_loops as int, threshold as int),
{
    if max_loops >= 5 && loop_count >= max_loops - 5 {
        return true;
    }
    if max_loops < 5 {
        return true;
    }
    if threshold == 1 || (threshold != 0 && loop_count % threshold == 0) {
        return true;
    }
    matches!(loop_count, 5 | 10 | 15 | 20 | 30 | 50 | 75)
}

} // verus!
