//! What holds of every sweep, stated over the window model.

use vstd::prelude::*;
use vstd::multiset::Multiset;
use crate::observation::present;
use crate::protocol::protocol;
use crate::window::{
    apply_step, column_steps, entering_at, held_after, leaving_at, lemma_observed_bound,
    observed, rows_between, step_at, values_between, window_count, window_rows, window_start,
    window_values, Step,
};

verus! {

/// The rows of a range that hold an observation are finitely many, and
/// `observed` counts them.
pub proof fn lemma_rows_between_counted(column: Seq<u32>, lo: int, hi: int)
    ensures
        rows_between(column, lo, hi).finite(),
        rows_between(column, lo, hi).len() == observed(column, lo, hi),
    decreases hi - lo,
{
    if lo >= hi {
        assert(rows_between(column, lo, hi) =~= Set::<int>::empty());
    } else {
        lemma_rows_between_counted(column, lo, hi - 1);
        let before = rows_between(column, lo, hi - 1);
        if present(column, hi - 1) {
            assert(rows_between(column, lo, hi) =~= before.insert(hi - 1));
            assert(!before.contains(hi - 1));
        } else {
            assert(rows_between(column, lo, hi) =~= before);
        }
    }
}

/// Dropping the first row of a range takes its observation, if it holds one,
/// out of the collected values.
pub proof fn lemma_values_drop_first(column: Seq<u32>, lo: int, hi: int)
    requires
        lo < hi,
    ensures
        values_between(column, lo, hi) == if present(column, lo) {
            values_between(column, lo + 1, hi).insert(column[lo])
        } else {
            values_between(column, lo + 1, hi)
        },
    decreases hi - lo,
{
    if lo + 1 < hi {
        lemma_values_drop_first(column, lo, hi - 1);
        let inner = values_between(column, lo + 1, hi - 1);
        if present(column, lo) && present(column, hi - 1) {
            assert(inner.insert(column[lo]).insert(column[hi - 1]) =~= inner.insert(
                column[hi - 1],
            ).insert(column[lo]));
        }
    } else {
        assert(values_between(column, lo, lo) =~= Multiset::<u32>::empty());
        assert(values_between(column, lo + 1, hi) =~= Multiset::<u32>::empty());
    }
}

/// The values of a range are as many as `observed` counts.
pub proof fn lemma_values_counted(column: Seq<u32>, lo: int, hi: int)
    ensures
        values_between(column, lo, hi).len() == observed(column, lo, hi),
    decreases hi - lo,
{
    if lo < hi {
        lemma_values_counted(column, lo, hi - 1);
    }
}

/// The window that ends at row `r` spans the rows `r - length ..= r` once
/// `r` has reached `length`, and the rows `0 ..= r` before that. The
/// observation count of a row's step is the number of rows in that span
/// that hold an observation.
pub proof fn law_window_width(column: Seq<u32>, length: nat, min_length: nat, r: int)
    requires
        0 <= r < column.len() <= usize::MAX,
    ensures
        r >= length ==> window_rows(column, length, r) == Set::new(
            |i: int| r - length <= i <= r && present(column, i),
        ),
        r < length ==> window_rows(column, length, r) == Set::new(
            |i: int| 0 <= i <= r && present(column, i),
        ),
        window_rows(column, length, r).finite(),
        step_at(column, length, min_length, r).observations == window_rows(column, length, r).len(),
        column_steps(column, length, min_length)[r].observations == window_rows(
            column,
            length,
            r,
        ).len(),
{
    let start = window_start(length, r);
    assert(window_rows(column, length, r) =~= rows_between(column, start, r + 1));
    lemma_rows_between_counted(column, start, r + 1);
    lemma_observed_bound(column, start, r + 1);
    if r >= length {
        assert(window_rows(column, length, r) =~= Set::new(
            |i: int| r - length <= i <= r && present(column, i),
        ));
    } else {
        assert(window_rows(column, length, r) =~= Set::new(
            |i: int| 0 <= i <= r && present(column, i),
        ));
    }
}

/// Applying a column's steps in turn, from the first row through row `r`,
/// leaves exactly the observations of the window that ends at `r`; the
/// step's observation count is their number.
pub proof fn law_window_contents(column: Seq<u32>, length: nat, min_length: nat, r: int)
    requires
        0 <= r < column.len() <= usize::MAX,
    ensures
        held_after(column_steps(column, length, min_length), r) == window_values(
            column,
            length,
            r,
        ),
        column_steps(column, length, min_length)[r].observations == window_values(
            column,
            length,
            r,
        ).len(),
    decreases r,
{
    let steps = column_steps(column, length, min_length);
    let start = window_start(length, r);
    lemma_values_counted(column, start, r + 1);
    lemma_observed_bound(column, start, r + 1);
    if r > 0 {
        law_window_contents(column, length, min_length, r - 1);
    } else {
        assert(held_after(steps, -1) =~= Multiset::<u32>::empty());
        assert(values_between(column, 0, 0) =~= Multiset::<u32>::empty());
    }
    let before = held_after(steps, r - 1);
    assert(before == window_values(column, length, r - 1));
    assert(steps[r].entering == entering_at(column, r));
    assert(steps[r].leaving == leaving_at(column, length, r));
    if r > length {
        lemma_values_drop_first(column, r - length - 1, r);
        let kept = values_between(column, r - length, r);
        if present(column, r - length - 1) {
            let gone = column[r - length - 1];
            if present(column, r) {
                assert(kept.insert(gone).insert(column[r]).remove(gone) =~= kept.insert(
                    column[r],
                ));
            } else {
                assert(kept.insert(gone).remove(gone) =~= kept);
            }
        }
    }
    assert(held_after(steps, r) =~= window_values(column, length, r));
}

/// A step that takes an observation in and takes the same observation out
/// leaves what is held as it was.
pub proof fn law_enter_then_leave_restores(held: Multiset<u32>, step: Step, bits: u32)
    requires
        step.entering == Some(bits),
        step.leaving == Some(bits),
    ensures
        apply_step(held, step) == held,
{
    assert(held.insert(bits).remove(bits) =~= held);
}

/// No mean is due at a row exactly when the window that ends there holds
/// fewer than `min_length` observations.
pub proof fn law_threshold_gating(column: Seq<u32>, length: nat, min_length: nat, r: int)
    requires
        0 <= r < column.len(),
    ensures
        !column_steps(column, length, min_length)[r].emit <==> window_rows(column, length, r).len()
            < min_length,
        !column_steps(column, length, min_length)[r].emit <==> window_count(column, length, r)
            < min_length,
{
    let start = window_start(length, r);
    assert(window_rows(column, length, r) =~= rows_between(column, start, r + 1));
    lemma_rows_between_counted(column, start, r + 1);
}

/// Rearranging the columns of the input rearranges the columns of the result
/// in the same way and changes nothing else: entry `i` of `order` names the
/// column of `columns` that is put at place `i`.
pub proof fn law_columns_independent(
    columns: Seq<Seq<u32>>,
    order: Seq<int>,
    length: nat,
    min_length: nat,
)
    requires
        forall|i: int| 0 <= i < order.len() ==> 0 <= #[trigger] order[i] < columns.len(),
    ensures
        protocol(Seq::new(order.len(), |i: int| columns[order[i]]), length, min_length)
            == Seq::new(order.len(), |i: int| protocol(columns, length, min_length)[order[i]]),
{
    assert(protocol(Seq::new(order.len(), |i: int| columns[order[i]]), length, min_length)
        =~= Seq::new(order.len(), |i: int| protocol(columns, length, min_length)[order[i]]));
}

/// With a `length` of zero the window is the current row alone: it holds
/// that row's observation or nothing, the observation of the row before
/// leaves as the row is taken in, and a mean is due on an observation
/// whenever `min_length` is at most one.
pub proof fn law_single_row_window(column: Seq<u32>, min_length: nat, r: int)
    requires
        0 <= r < column.len() <= usize::MAX,
    ensures
        window_rows(column, 0, r) == if present(column, r) {
            Set::<int>::empty().insert(r)
        } else {
            Set::<int>::empty()
        },
        window_values(column, 0, r) == if present(column, r) {
            Multiset::<u32>::empty().insert(column[r])
        } else {
            Multiset::<u32>::empty()
        },
        column_steps(column, 0, min_length)[r].observations == if present(column, r) {
            1usize
        } else {
            0usize
        },
        column_steps(column, 0, min_length)[r].leaving == entering_at(column, r - 1),
        present(column, r) && min_length <= 1 ==> column_steps(column, 0, min_length)[r].emit,
{
    assert(values_between(column, r, r) =~= Multiset::<u32>::empty());
    assert(observed(column, r, r) == 0);
    if present(column, r) {
        assert(window_rows(column, 0, r) =~= Set::<int>::empty().insert(r));
    } else {
        assert(window_rows(column, 0, r) =~= Set::<int>::empty());
    }
}

} // verus!
