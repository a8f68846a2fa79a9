//! The sweep over a whole matrix, one column after the other.

use vstd::prelude::*;
use crate::matrix::{columns, Matrix};
use crate::sweep::sweep_column;
use crate::window::{column_steps, Step};

verus! {

/// The steps of every column of a matrix: entry `c` holds the steps of
/// column `c`, one per row. No column's steps depend on another column.
pub open spec fn protocol(columns: Seq<Seq<u32>>, length: nat, min_length: nat) -> Seq<Seq<Step>> {
    Seq::new(columns.len(), |c: int| column_steps(columns[c], length, min_length))
}

/// What a plan holds, as sequences.
pub open spec fn plan_view(plan: Vec<Vec<Step>>) -> Seq<Seq<Step>> {
    Seq::new(plan.len() as nat, |c: int| plan[c]@)
}

/// Sweeps every column of `array` with a trailing window of `length + 1`
/// rows and returns, column by column and row by row, what a mean is made
/// of: the observation to take in, the one to take out, the number of
/// observations to divide by, and whether that number reaches `min_length`.
pub fn get_stat_protocol(array: &Matrix, length: usize, min_length: usize) -> (plan: Vec<Vec<Step>>)
    ensures
        plan_view(plan) == protocol(columns(*array), length as nat, min_length as nat),
        plan.len() == columns(*array).len(),
        forall|c: int|
            0 <= c < plan.len() ==> (#[trigger] plan[c])@ == column_steps(
                columns(*array)[c],
                length as nat,
                min_length as nat,
            ),
{
    let num_cols = array.num_cols();
    let mut plan: Vec<Vec<Step>> = Vec::new();
    let mut col: usize = 0;
    while col < num_cols
        invariant
            num_cols == columns(*array).len(),
            col <= num_cols,
            plan.len() == col,
            forall|c: int|
                0 <= c < col ==> (#[trigger] plan[c])@ == column_steps(
                    columns(*array)[c],
                    length as nat,
                    min_length as nat,
                ),
        decreases num_cols - col,
    {
        let column = array.column_at(col);
        plan.push(sweep_column(&column, length, min_length));
        col += 1;
    }
    assert(plan_view(plan) =~= protocol(columns(*array), length as nat, min_length as nat));
    plan
}

} // verus!
