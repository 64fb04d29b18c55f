//! The adapter that transforms every item.

use crate::bidir_iterator::BidirIterator;
use crate::callable::{as_spec_fn, is_function_on};
use crate::cursor::{
    backward_run, forward_run, lemma_backward_run_commutes_with_map,
    lemma_forward_run_commutes_with_map, step_next, step_prev,
};
use vstd::prelude::*;

verus! {

/// A bidirectional iterator that applies a function to each item of another.
/// Each step is one step of the wrapped iterator.
pub struct Mapped<I, F> {
    iter: I,
    f: F,
}

impl<I, F> Mapped<I, F> {
    /// The wrapped iterator.
    pub closed spec fn inner(&self) -> I {
        self.iter
    }

    /// The function the adapter applies.
    pub closed spec fn func(&self) -> F {
        self.f
    }

    pub(crate) fn new(iter: I, f: F) -> (adapter: Self)
        ensures
            adapter.inner() == iter,
            adapter.func() == f,
    {
        Mapped { iter, f }
    }
}

/// The values of `f` on `items`, in the same order.
pub open spec fn mapped_items<A, B, F: FnMut(A) -> B>(f: F, items: Seq<A>) -> Seq<B> {
    items.map_values(as_spec_fn(f))
}

impl<B, I: BidirIterator, F> Mapped<I, F> where F: FnMut(I::Item) -> B {
    /// The adapter's well-formedness, items and cursor in terms of the
    /// wrapped iterator and of the function. This is what the trait's
    /// functions are defined to be. A caller that has built the adapter over
    /// a closure or a named function calls the lemma to learn it: at such a
    /// type the definitions are not unfolded for it.
    pub proof fn lemma_model(&self)
        ensures
            self.wf() <==> self.inner().wf() && is_function_on(self.func(), self.inner().items()),
            self.items() == mapped_items(self.func(), self.inner().items()),
            self.pos() == self.inner().pos(),
    {
    }

    /// Iterating forward through the adapter to its end yields the function's
    /// values on what the wrapped iterator yields when iterated forward to its
    /// end; the same holds backward.
    pub proof fn lemma_map_commutes_with_direction(&self)
        ensures
            forward_run(self.items(), self.pos()) == mapped_items(
                self.func(),
                forward_run(self.inner().items(), self.inner().pos()),
            ),
            backward_run(self.items(), self.pos()) == mapped_items(
                self.func(),
                backward_run(self.inner().items(), self.inner().pos()),
            ),
    {
        let items = self.inner().items();
        let pos = self.inner().pos();
        lemma_forward_run_commutes_with_map(items, as_spec_fn(self.func()), pos);
        lemma_backward_run_commutes_with_map(items, as_spec_fn(self.func()), pos);
    }
}

impl<B, I: BidirIterator, F> BidirIterator for Mapped<I, F> where F: FnMut(I::Item) -> B {
    type Item = B;

    /// The wrapped iterator is well-formed and the function is a function on
    /// each of its items.
    open spec fn wf(&self) -> bool {
        self.inner().wf() && is_function_on(self.func(), self.inner().items())
    }

    /// The function's values on the wrapped iterator's sequence.
    open spec fn items(&self) -> Seq<B> {
        mapped_items(self.func(), self.inner().items())
    }

    /// The wrapped iterator's cursor.
    open spec fn pos(&self) -> int {
        self.inner().pos()
    }

    proof fn lemma_cursor_in_range(&self) {
        self.inner().lemma_cursor_in_range();
    }

    /// One `next` of the wrapped iterator; the function is applied to the item
    /// it returns, and the value is a value the function returned on it.
    ///
    /// The first two clauses are the trait's, said again at the adapter's own
    /// item type, where a caller that has built the adapter over a closure or
    /// a named function can use them.
    fn next(&mut self) -> (item: Option<B>)
        ensures
            item == step_next((*old(self)).items(), (*old(self)).pos()).0,
            (*final(self)).pos() == step_next((*old(self)).items(), (*old(self)).pos()).1,
            final(self).func() == old(self).func(),
            final(self).inner().items() == old(self).inner().items(),
            item matches Some(y) ==> call_ensures(
                old(self).func(),
                (old(self).inner().items()[old(self).inner().pos()],),
                y,
            ),
    {
        match self.iter.next() {
            Some(x) => Some((self.f)(x)),
            None => None,
        }
    }

    /// One `prev` of the wrapped iterator; the function is applied to the item
    /// it returns, and the value is a value the function returned on it.
    ///
    /// The first two clauses are the trait's, said again at the adapter's own
    /// item type, where a caller that has built the adapter over a closure or
    /// a named function can use them.
    fn prev(&mut self) -> (item: Option<B>)
        ensures
            item == step_prev((*old(self)).items(), (*old(self)).pos()).0,
            (*final(self)).pos() == step_prev((*old(self)).items(), (*old(self)).pos()).1,
            final(self).func() == old(self).func(),
            final(self).inner().items() == old(self).inner().items(),
            item matches Some(y) ==> call_ensures(
                old(self).func(),
                (old(self).inner().items()[old(self).inner().pos() - 1],),
                y,
            ),
    {
        match self.iter.prev() {
            Some(x) => Some((self.f)(x)),
            None => None,
        }
    }
}

} // verus!
