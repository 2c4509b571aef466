//! The highlighted row of the container table.
use vstd::prelude::*;
use vstd::arithmetic::div_mod::{lemma_add_mod_noop, lemma_mod_self_0, lemma_small_mod};

verus! {

/// The row after `selected` among `count` rows, wrapping to the first; with
/// no rows the selection stays.
pub open spec fn next_row(selected: nat, count: nat) -> nat {
    if count == 0 {
        selected
    } else {
        (selected + 1) % count
    }
}

/// The row before `selected` among `count` rows, wrapping to the last; with
/// no rows the selection stays.
pub open spec fn previous_row(selected: nat, count: nat) -> nat {
    if count == 0 {
        selected
    } else if selected == 0 {
        (count - 1) as nat
    } else {
        (selected - 1) as nat
    }
}

/// The selection once the table has `count` rows: moved to the last row if
/// it fell off the end.
pub open spec fn clamped_row(selected: nat, count: nat) -> nat {
    if count > 0 && selected >= count {
        (count - 1) as nat
    } else {
        selected
    }
}

/// Moves the selection down one row, wrapping around.
pub fn next(selected: usize, count: usize) -> (r: usize)
    requires
        count == 0 || selected < usize::MAX,
    ensures
        r == next_row(selected as nat, count as nat),
{
    if count == 0 {
        return selected;
    }
    (selected + 1) % count
}

/// Moves the selection up one row, wrapping around.
pub fn previous(selected: usize, count: usize) -> (r: usize)
    ensures
        r == previous_row(selected as nat, count as nat),
{
    if count == 0 {
        return selected;
    }
    if selected == 0 {
        count - 1
    } else {
        selected - 1
    }
}

/// Keeps the selection on the table after it was refreshed.
pub fn clamp_selection(selected: usize, count: usize) -> (r: usize)
    ensures
        r == clamped_row(selected as nat, count as nat),
{
    if count > 0 && selected >= count {
        count - 1
    } else {
        selected
    }
}

/// `next_row` applied `k` times.
pub open spec fn next_rows(selected: nat, count: nat, k: nat) -> nat
    decreases k,
{
    if k == 0 {
        selected
    } else {
        next_row(next_rows(selected, count, (k - 1) as nat), count)
    }
}

/// Up undoes down and down undoes up, on a selected row of a non-empty
/// table.
pub proof fn law_previous_undoes_next(selected: nat, count: nat)
    requires
        selected < count,
    ensures
        previous_row(next_row(selected, count), count) == selected,
        next_row(previous_row(selected, count), count) == selected,
{
    if selected + 1 == count {
        lemma_mod_self_0(count as int);
    } else {
        lemma_small_mod((selected + 1) as nat, count);
    }
    if selected == 0 {
        lemma_mod_self_0(count as int);
    } else {
        lemma_small_mod(selected, count);
    }
}

/// Moving down `k` rows lands on row `(selected + k) mod count`; in
/// particular `count` moves come back to the start.
pub proof fn law_next_cycles(selected: nat, count: nat, k: nat)
    requires
        selected < count,
    ensures
        next_rows(selected, count, k) == (selected + k) % count,
        next_rows(selected, count, count) == selected,
{
    lemma_next_rows_mod(selected, count, k);
    lemma_next_cycles_full(selected, count);
}

proof fn lemma_next_cycles_full(selected: nat, count: nat)
    requires
        selected < count,
    ensures
        next_rows(selected, count, count) == selected,
{
    lemma_next_rows_mod(selected, count, count);
    vstd::arithmetic::div_mod::lemma_mod_add_multiples_vanish(selected as int, count as int);
    lemma_small_mod(selected, count);
}

proof fn lemma_next_rows_mod(selected: nat, count: nat, k: nat)
    requires
        selected < count,
    ensures
        next_rows(selected, count, k) == (selected + k) % count,
    decreases k,
{
    if k == 0 {
        lemma_small_mod(selected, count);
    } else {
        lemma_next_rows_mod(selected, count, (k - 1) as nat);
        lemma_add_mod_noop((selected + k - 1) as int, 1, count as int);
        if count == 1 {
            lemma_mod_self_0(1);
        } else {
            lemma_small_mod(1, count);
        }
    }
}

} // verus!
