//! The model of every bidirectional iterator: a finite sequence of items and a
//! cursor between two of them.
//!
//! A cursor `pos` over `items` satisfies `0 <= pos <= items.len()`. It lies
//! after the first `pos` items: `items[pos - 1]` is the item before it and
//! `items[pos]` the item after it. At `0` it is at the start, at
//! `items.len()` at the end.
//!
//! `step_next` and `step_prev` say what one call does. The laws below are
//! stated over them, and so hold of every iterator whose `next` and `prev` meet
//! the contract of `BidirIterator`.

use vstd::prelude::*;

verus! {

/// What `next` does at cursor `pos`: it returns the item after the cursor and
/// moves the cursor past it, or returns `None` and leaves the cursor where it
/// is when there is no such item.
pub open spec fn step_next<T>(items: Seq<T>, pos: int) -> (Option<T>, int) {
    if 0 <= pos < items.len() {
        (Some(items[pos]), pos + 1)
    } else {
        (None, pos)
    }
}

/// What `prev` does at cursor `pos`: it returns the item before the cursor and
/// moves the cursor back over it, or returns `None` and leaves the cursor where
/// it is when there is no such item.
pub open spec fn step_prev<T>(items: Seq<T>, pos: int) -> (Option<T>, int) {
    if 0 < pos <= items.len() {
        (Some(items[pos - 1]), pos - 1)
    } else {
        (None, pos)
    }
}

/// The cursor after `n` calls of `next` in a row, starting at `pos`.
pub open spec fn cursor_after_nexts<T>(items: Seq<T>, pos: int, n: nat) -> int
    decreases n,
{
    if n == 0 {
        pos
    } else {
        step_next(items, cursor_after_nexts(items, pos, (n - 1) as nat)).1
    }
}

/// The cursor after `n` calls of `prev` in a row, starting at `pos`.
pub open spec fn cursor_after_prevs<T>(items: Seq<T>, pos: int, n: nat) -> int
    decreases n,
{
    if n == 0 {
        pos
    } else {
        step_prev(items, cursor_after_prevs(items, pos, (n - 1) as nat)).1
    }
}

/// The items that `next` returns, in the order of the calls, when it is called
/// from cursor `pos` until it returns `None`.
pub open spec fn forward_run<T>(items: Seq<T>, pos: int) -> Seq<T>
    decreases items.len() - pos,
{
    match step_next(items, pos) {
        (Some(item), after) => seq![item] + forward_run(items, after),
        (None, _) => Seq::empty(),
    }
}

/// The items that `prev` returns, in the order of the calls, when it is called
/// from cursor `pos` until it returns `None`.
pub open spec fn backward_run<T>(items: Seq<T>, pos: int) -> Seq<T>
    decreases pos,
{
    match step_prev(items, pos) {
        (Some(item), after) => seq![item] + backward_run(items, after),
        (None, _) => Seq::empty(),
    }
}

/// Where a forward search from cursor `pos` stops: just past the first item
/// after the cursor of which `keep` holds, or at the end if there is none.
pub open spec fn seek_forward<T>(items: Seq<T>, keep: spec_fn(T) -> bool, pos: int) -> int
    decreases items.len() - pos,
{
    if 0 <= pos < items.len() {
        if keep(items[pos]) {
            pos + 1
        } else {
            seek_forward(items, keep, pos + 1)
        }
    } else {
        pos
    }
}

/// Where a backward search from cursor `pos` stops: just before the nearest
/// item before the cursor of which `keep` holds, or at the start if there is
/// none.
pub open spec fn seek_backward<T>(items: Seq<T>, keep: spec_fn(T) -> bool, pos: int) -> int
    decreases pos,
{
    if 0 < pos <= items.len() {
        if keep(items[pos - 1]) {
            pos - 1
        } else {
            seek_backward(items, keep, pos - 1)
        }
    } else {
        pos
    }
}

/// `next` followed at once by `prev` returns the same item twice and leaves the
/// cursor where it was, wherever `next` has an item to return.
pub proof fn lemma_next_then_prev<T>(items: Seq<T>, pos: int)
    requires
        0 <= pos < items.len(),
    ensures
        step_next(items, pos).0 is Some,
        step_prev(items, step_next(items, pos).1).0 == step_next(items, pos).0,
        step_prev(items, step_next(items, pos).1).1 == pos,
{
}

/// `prev` followed at once by `next` returns the same item twice and leaves the
/// cursor where it was, wherever `prev` has an item to return.
pub proof fn lemma_prev_then_next<T>(items: Seq<T>, pos: int)
    requires
        0 < pos <= items.len(),
    ensures
        step_prev(items, pos).0 is Some,
        step_next(items, step_prev(items, pos).1).0 == step_prev(items, pos).0,
        step_next(items, step_prev(items, pos).1).1 == pos,
{
}

/// Once `next` has returned `None`, it returns `None` again however often it is
/// called, and the cursor stays at the end, from where `prev` returns the last
/// item.
pub proof fn lemma_exhausted_forward_stays<T>(items: Seq<T>, pos: int, n: nat)
    requires
        0 <= pos <= items.len(),
        step_next(items, pos).0 is None,
    ensures
        cursor_after_nexts(items, pos, n) == pos,
        step_next(items, cursor_after_nexts(items, pos, n)).0 is None,
        pos == items.len(),
        items.len() > 0 ==> step_prev(items, cursor_after_nexts(items, pos, n)).0 == Some(
            items.last(),
        ),
    decreases n,
{
    if n > 0 {
        lemma_exhausted_forward_stays(items, pos, (n - 1) as nat);
    }
}

/// Once `prev` has returned `None`, it returns `None` again however often it is
/// called, and the cursor stays at the start, from where `next` returns the
/// first item.
pub proof fn lemma_exhausted_backward_stays<T>(items: Seq<T>, pos: int, n: nat)
    requires
        0 <= pos <= items.len(),
        step_prev(items, pos).0 is None,
    ensures
        cursor_after_prevs(items, pos, n) == pos,
        step_prev(items, cursor_after_prevs(items, pos, n)).0 is None,
        pos == 0,
        items.len() > 0 ==> step_next(items, cursor_after_prevs(items, pos, n)).0 == Some(
            items.first(),
        ),
    decreases n,
{
    if n > 0 {
        lemma_exhausted_backward_stays(items, pos, (n - 1) as nat);
    }
}

/// Iterating forward to the end yields the items after the cursor, in their
/// order.
pub proof fn lemma_forward_run_is_suffix<T>(items: Seq<T>, pos: int)
    requires
        0 <= pos <= items.len(),
    ensures
        forward_run(items, pos) == items.skip(pos),
    decreases items.len() - pos,
{
    if pos < items.len() {
        lemma_forward_run_is_suffix(items, pos + 1);
    }
}

/// Iterating backward to the start yields the items before the cursor, the
/// nearest one first.
pub proof fn lemma_backward_run_is_reversed_prefix<T>(items: Seq<T>, pos: int)
    requires
        0 <= pos <= items.len(),
    ensures
        backward_run(items, pos) == items.take(pos).reverse(),
    decreases pos,
{
    if pos > 0 {
        lemma_backward_run_is_reversed_prefix(items, pos - 1);
    }
}

/// Applying a function to every item and then iterating forward to the end
/// yields the same as iterating forward first and applying the function to
/// what comes out.
pub proof fn lemma_forward_run_commutes_with_map<A, B>(items: Seq<A>, g: spec_fn(A) -> B, pos: int)
    ensures
        forward_run(items.map_values(g), pos) == forward_run(items, pos).map_values(g),
    decreases items.len() - pos,
{
    if 0 <= pos < items.len() {
        lemma_forward_run_commutes_with_map(items, g, pos + 1);
    }
}

/// Applying a function to every item and then iterating backward to the start
/// yields the same as iterating backward first and applying the function to
/// what comes out.
pub proof fn lemma_backward_run_commutes_with_map<A, B>(items: Seq<A>, g: spec_fn(A) -> B, pos: int)
    ensures
        backward_run(items.map_values(g), pos) == backward_run(items, pos).map_values(g),
    decreases pos,
{
    if 0 < pos <= items.len() {
        lemma_backward_run_commutes_with_map(items, g, pos - 1);
    }
}

} // verus!
