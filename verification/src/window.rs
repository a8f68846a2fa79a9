//! The trailing window over one column, as a mathematical model.
//!
//! The window that ends at row `r` spans the rows `max(0, r - length) ..= r`:
//! it grows from one row to `length + 1` rows and then slides.

use vstd::prelude::*;
use vstd::multiset::Multiset;
use crate::observation::present;

verus! {

/// What happens at one row of a column's sweep.
#[derive(Clone, Copy, Debug, PartialEq, Eq)]
pub struct Step {
    /// The observation of this row, which enters the window; `None` where the
    /// cell is missing.
    pub entering: Option<u32>,
    /// The observation that falls out of the window at this row; `None` while
    /// the window still grows, and where the cell that falls out is missing.
    pub leaving: Option<u32>,
    /// How many observations the window holds once this row is taken in.
    pub observations: usize,
    /// Whether the window holds enough observations for a mean to be written.
    pub emit: bool,
}

/// First row of the trailing window that ends at row `r`.
pub open spec fn window_start(length: nat, r: int) -> int {
    if r > length {
        r - length
    } else {
        0
    }
}

/// The rows of the trailing window ending at `r` that hold an observation.
pub open spec fn window_rows(column: Seq<u32>, length: nat, r: int) -> Set<int> {
    Set::new(|i: int| window_start(length, r) <= i <= r && present(column, i))
}

/// Number of observations among the rows `lo <= i < hi`.
pub open spec fn observed(column: Seq<u32>, lo: int, hi: int) -> nat
    decreases hi - lo,
{
    if lo >= hi {
        0
    } else if present(column, hi - 1) {
        observed(column, lo, hi - 1) + 1
    } else {
        observed(column, lo, hi - 1)
    }
}

/// Number of observations in the trailing window ending at `r`.
pub open spec fn window_count(column: Seq<u32>, length: nat, r: int) -> nat {
    observed(column, window_start(length, r), r + 1)
}

/// The observations among the rows `lo <= i < hi`, each as often as it occurs.
pub open spec fn values_between(column: Seq<u32>, lo: int, hi: int) -> Multiset<u32>
    decreases hi - lo,
{
    if lo >= hi {
        Multiset::empty()
    } else if present(column, hi - 1) {
        values_between(column, lo, hi - 1).insert(column[hi - 1])
    } else {
        values_between(column, lo, hi - 1)
    }
}

/// The observations in the trailing window ending at `r`.
pub open spec fn window_values(column: Seq<u32>, length: nat, r: int) -> Multiset<u32> {
    values_between(column, window_start(length, r), r + 1)
}

/// The observation that row `r` brings into the window.
pub open spec fn entering_at(column: Seq<u32>, r: int) -> Option<u32> {
    if present(column, r) {
        Some(column[r])
    } else {
        None
    }
}

/// The observation that falls out of the window when row `r` is taken in:
/// the one of row `r - length - 1`, once `r` exceeds `length`.
pub open spec fn leaving_at(column: Seq<u32>, length: nat, r: int) -> Option<u32> {
    if r > length && present(column, r - length - 1) {
        Some(column[r - length - 1])
    } else {
        None
    }
}

/// The step of row `r`, for `0 <= r < column.len()`.
pub open spec fn step_at(column: Seq<u32>, length: nat, min_length: nat, r: int) -> Step {
    Step {
        entering: entering_at(column, r),
        leaving: leaving_at(column, length, r),
        observations: window_count(column, length, r) as usize,
        emit: window_count(column, length, r) >= min_length,
    }
}

/// The steps of a whole column, one per row.
pub open spec fn column_steps(column: Seq<u32>, length: nat, min_length: nat) -> Seq<Step> {
    Seq::new(column.len(), |r: int| step_at(column, length, min_length, r))
}

/// What a collection of observations becomes by one step: the entering
/// observation is put in, then the leaving one is taken out.
pub open spec fn apply_step(held: Multiset<u32>, step: Step) -> Multiset<u32> {
    let grown = match step.entering {
        Some(bits) => held.insert(bits),
        None => held,
    };
    match step.leaving {
        Some(bits) => grown.remove(bits),
        None => grown,
    }
}

/// The observations that are held once the steps `0 ..= r` have been applied
/// in turn, starting from nothing.
pub open spec fn held_after(steps: Seq<Step>, r: int) -> Multiset<u32>
    decreases r + 1,
{
    if r < 0 {
        Multiset::empty()
    } else {
        apply_step(held_after(steps, r - 1), steps[r])
    }
}

/// The rows `lo <= i < hi` that hold an observation.
pub open spec fn rows_between(column: Seq<u32>, lo: int, hi: int) -> Set<int> {
    Set::new(|i: int| lo <= i < hi && present(column, i))
}

/// A range of rows holds at most as many observations as it has rows.
pub proof fn lemma_observed_bound(column: Seq<u32>, lo: int, hi: int)
    requires
        lo <= hi,
    ensures
        observed(column, lo, hi) <= hi - lo,
    decreases hi - lo,
{
    if lo < hi {
        lemma_observed_bound(column, lo, hi - 1);
    }
}

/// Dropping the first row of a range takes its observation, if it holds one,
/// out of the count.
pub proof fn lemma_observed_drop_first(column: Seq<u32>, lo: int, hi: int)
    requires
        lo < hi,
    ensures
        observed(column, lo, hi) == observed(column, lo + 1, hi) + if present(column, lo) {
            1nat
        } else {
            0nat
        },
    decreases hi - lo,
{
    if lo + 1 < hi {
        lemma_observed_drop_first(column, lo, hi - 1);
    } else {
        assert(observed(column, lo, lo) == 0);
        assert(observed(column, lo + 1, hi) == 0);
    }
}

/// From one row to the next the count gains the entering observation and
/// loses the leaving one.
pub proof fn lemma_window_count_step(column: Seq<u32>, length: nat, r: int)
    requires
        0 <= r,
    ensures
        window_count(column, length, r) + (if leaving_at(column, length, r) is Some {
            1nat
        } else {
            0nat
        }) == window_count(column, length, r - 1) + (if entering_at(column, r) is Some {
            1nat
        } else {
            0nat
        }),
{
    if r > length {
        lemma_observed_drop_first(column, r - length - 1, r);
    }
}

} // verus!
