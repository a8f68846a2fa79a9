//! The sweep over one column: the window grows, then slides, one row at a
//! time.

use vstd::prelude::*;
use crate::observation::missing;
use crate::window::{
    column_steps, lemma_observed_bound, lemma_window_count_step, step_at, window_count,
    window_start, Step,
};

verus! {

/// Sweeps a column from its first row to its last and returns the step of
/// every row: the observation that enters, the one that leaves, the number of
/// observations in the trailing window of `length + 1` rows, and whether that
/// number reaches `min_length`.
pub fn sweep_column(column: &Vec<u32>, length: usize, min_length: usize) -> (steps: Vec<Step>)
    ensures
        steps@ == column_steps(column@, length as nat, min_length as nat),
        forall|r: int|
            0 <= r < steps.len() ==> (#[trigger] steps[r]).observations == window_count(
                column@,
                length as nat,
                r,
            ),
{
    let num_rows = column.len();
    let mut steps: Vec<Step> = Vec::new();
    let mut observation_count: usize = 0;
    let mut row: usize = 0;
    while row < num_rows
        invariant
            num_rows == column.len(),
            row <= num_rows,
            steps.len() == row,
            observation_count == window_count(column@, length as nat, row - 1),
            forall|i: int|
                0 <= i < row ==> steps[i] == step_at(
                    column@,
                    length as nat,
                    min_length as nat,
                    i,
                ),
            forall|i: int|
                0 <= i < row ==> (#[trigger] steps[i]).observations == window_count(
                    column@,
                    length as nat,
                    i,
                ),
        decreases num_rows - row,
    {
        proof {
            lemma_window_count_step(column@, length as nat, row as int);
            lemma_observed_bound(column@, window_start(length as nat, row - 1), row as int);
            lemma_observed_bound(column@, window_start(length as nat, row as int), row + 1);
        }
        let mut entering: Option<u32> = None;
        let mut leaving: Option<u32> = None;
        let bits = column[row];
        if !missing(bits) {
            observation_count += 1;
            entering = Some(bits);
        }
        if row > length {
            let bits = column[row - length - 1];
            if !missing(bits) {
                observation_count -= 1;
                leaving = Some(bits);
            }
        }
        steps.push(
            Step {
                entering,
                leaving,
                observations: observation_count,
                emit: observation_count >= min_length,
            },
        );
        row += 1;
    }
    assert(steps@ =~= column_steps(column@, length as nat, min_length as nat));
    steps
}

} // verus!
