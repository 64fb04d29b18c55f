//! The adapter that transforms the items and keeps those with a result.

use crate::bidir_iterator::BidirIterator;
use crate::callable::{as_spec_fn, as_spec_keep, is_function_on, value_at};
use crate::cursor::{seek_backward, seek_forward, step_next, step_prev};
use vstd::prelude::*;

verus! {

/// A bidirectional iterator over the results that a function returns on the
/// items of another, without the items on which it returns `None`. One step
/// takes as many steps of the wrapped iterator as it needs to reach a result
/// or the end of the sequence. Nothing is kept between calls: the function is
/// applied again to every item a call passes.
pub struct FilterMap<I, F> {
    iter: I,
    f: F,
}

impl<I, F> FilterMap<I, F> {
    /// The wrapped iterator.
    pub closed spec fn inner(&self) -> I {
        self.iter
    }

    /// The function the adapter applies.
    pub closed spec fn func(&self) -> F {
        self.f
    }

    pub(crate) fn new(iter: I, f: F) -> (adapter: Self)
        ensures
            adapter.inner() == iter,
            adapter.func() == f,
    {
        FilterMap { iter, f }
    }
}

/// The results of `f` on `items`, in the same order, without the items on
/// which `f` returns `None`.
pub open spec fn kept_values<A, B, F: FnMut(A) -> Option<B>>(f: F, items: Seq<A>) -> Seq<B> {
    items.filter_map(as_spec_fn(f))
}

/// Taking one more item into a prefix adds the result of `f` on that item to
/// the kept values if there is one, and nothing otherwise.
pub proof fn lemma_kept_values_extend<A, B, F: FnMut(A) -> Option<B>>(f: F, items: Seq<A>, c: int)
    requires
        0 <= c < items.len(),
    ensures
        kept_values(f, items.take(c + 1)) == match value_at(f, items[c]) {
            Some(y) => kept_values(f, items.take(c)).push(y),
            None => kept_values(f, items.take(c)),
        },
{
    items.lemma_filter_map_take_succ(as_spec_fn(f), c);
}

/// The kept values of a sequence start with the kept values of each of its
/// prefixes.
pub proof fn lemma_kept_values_prefix<A, B, F: FnMut(A) -> Option<B>>(f: F, items: Seq<A>, c: int)
    requires
        0 <= c <= items.len(),
    ensures
        kept_values(f, items.take(c)).len() <= kept_values(f, items).len(),
        forall|k: int|
            0 <= k < kept_values(f, items.take(c)).len() ==> kept_values(f, items)[k]
                == #[trigger] kept_values(f, items.take(c))[k],
    decreases items.len() - c,
{
    if c < items.len() {
        lemma_kept_values_prefix(f, items, c + 1);
        lemma_kept_values_extend(f, items, c);
        assert forall|k: int| 0 <= k < kept_values(f, items.take(c)).len() implies kept_values(
            f,
            items,
        )[k] == #[trigger] kept_values(f, items.take(c))[k] by {
            assert(kept_values(f, items.take(c + 1))[k] == kept_values(f, items.take(c))[k]);
        }
    } else {
        assert(items.take(c) =~= items);
    }
}

impl<B, I: BidirIterator, F> FilterMap<I, F> where F: FnMut(I::Item) -> Option<B> {
    /// The adapter's well-formedness, items and cursor in terms of the
    /// wrapped iterator and of the function. This is what the trait's
    /// functions are defined to be. A caller that has built the adapter over
    /// a closure or a named function calls the lemma to learn it: at such a
    /// type the definitions are not unfolded for it.
    pub proof fn lemma_model(&self)
        ensures
            self.wf() <==> self.inner().wf() && is_function_on(self.func(), self.inner().items()),
            self.items() == kept_values(self.func(), self.inner().items()),
            self.pos() == kept_values(
                self.func(),
                self.inner().items().take(self.inner().pos()),
            ).len(),
    {
    }
}

impl<B, I: BidirIterator, F> BidirIterator for FilterMap<I, F> where
    F: FnMut(I::Item) -> Option<B>,
 {
    type Item = B;

    /// The wrapped iterator is well-formed and the function is a function on
    /// each of its items.
    open spec fn wf(&self) -> bool {
        self.inner().wf() && is_function_on(self.func(), self.inner().items())
    }

    /// The function's results on the wrapped iterator's sequence.
    open spec fn items(&self) -> Seq<B> {
        kept_values(self.func(), self.inner().items())
    }

    /// The number of results on the items before the wrapped iterator's
    /// cursor.
    open spec fn pos(&self) -> int {
        kept_values(self.func(), self.inner().items().take(self.inner().pos())).len() as int
    }

    proof fn lemma_cursor_in_range(&self) {
        let items = self.inner().items();
        self.inner().lemma_cursor_in_range();
        lemma_kept_values_prefix(self.func(), items, self.inner().pos());
    }

    /// Steps the wrapped iterator forward until the function returns a value
    /// on an item, which is returned, or until that iterator is at its end.
    /// The wrapped iterator stops just past the item that gave the value.
    ///
    /// The first two clauses are the trait's, said again at the adapter's own
    /// item type, where a caller that has built the adapter over a closure or
    /// a named function can use them.
    #[verifier::loop_isolation(false)]
    fn next(&mut self) -> (item: Option<B>)
        ensures
            item == step_next((*old(self)).items(), (*old(self)).pos()).0,
            (*final(self)).pos() == step_next((*old(self)).items(), (*old(self)).pos()).1,
            final(self).func() == old(self).func(),
            final(self).inner().items() == old(self).inner().items(),
            final(self).inner().pos() == seek_forward(
                old(self).inner().items(),
                as_spec_keep(old(self).func()),
                old(self).inner().pos(),
            ),
            item matches Some(y) ==> call_ensures(
                old(self).func(),
                (old(self).inner().items()[final(self).inner().pos() - 1],),
                Some(y),
            ),
    {
        let ghost items = self.iter.items();
        let ghost start = self.iter.pos();
        let ghost func = self.f;
        proof {
            self.iter.lemma_cursor_in_range();
        }
        loop
            invariant
                self.iter.wf(),
                self.iter.items() == items,
                self.f == func,
                0 <= start <= self.iter.pos() <= items.len(),
                kept_values(func, items.take(self.iter.pos())) == kept_values(
                    func,
                    items.take(start),
                ),
                seek_forward(items, as_spec_keep(func), self.iter.pos()) == seek_forward(
                    items,
                    as_spec_keep(func),
                    start,
                ),
            decreases items.len() - self.iter.pos(),
        {
            let ghost c = self.iter.pos();
            match self.iter.next() {
                Some(a) => {
                    let result = (self.f)(a);
                    proof {
                        lemma_kept_values_extend(func, items, c);
                    }
                    match result {
                        Some(b) => {
                            proof {
                                lemma_kept_values_prefix(func, items, c + 1);
                                let n = kept_values(func, items.take(c)).len() as int;
                                assert(kept_values(func, items.take(c + 1))[n] == b);
                            }
                            return Some(b);
                        },
                        None => {},
                    }
                },
                None => {
                    proof {
                        assert(items.take(c) =~= items);
                    }
                    return None;
                },
            }
        }
    }

    /// Steps the wrapped iterator backward until the function returns a value
    /// on an item, which is returned, or until that iterator is at its start.
    /// The wrapped iterator stops just before the item that gave the value.
    ///
    /// The first two clauses are the trait's, said again at the adapter's own
    /// item type, where a caller that has built the adapter over a closure or
    /// a named function can use them.
    #[verifier::loop_isolation(false)]
    fn prev(&mut self) -> (item: Option<B>)
        ensures
            item == step_prev((*old(self)).items(), (*old(self)).pos()).0,
            (*final(self)).pos() == step_prev((*old(self)).items(), (*old(self)).pos()).1,
            final(self).func() == old(self).func(),
            final(self).inner().items() == old(self).inner().items(),
            final(self).inner().pos() == seek_backward(
                old(self).inner().items(),
                as_spec_keep(old(self).func()),
                old(self).inner().pos(),
            ),
            item matches Some(y) ==> call_ensures(
                old(self).func(),
                (old(self).inner().items()[final(self).inner().pos()],),
                Some(y),
            ),
    {
        let ghost items = self.iter.items();
        let ghost start = self.iter.pos();
        let ghost func = self.f;
        proof {
            self.iter.lemma_cursor_in_range();
        }
        loop
            invariant
                self.iter.wf(),
                self.iter.items() == items,
                self.f == func,
                0 <= self.iter.pos() <= start <= items.len(),
                kept_values(func, items.take(self.iter.pos())) == kept_values(
                    func,
                    items.take(start),
                ),
                seek_backward(items, as_spec_keep(func), self.iter.pos()) == seek_backward(
                    items,
                    as_spec_keep(func),
                    start,
                ),
            decreases self.iter.pos(),
        {
            let ghost c = self.iter.pos();
            match self.iter.prev() {
                Some(a) => {
                    let result = (self.f)(a);
                    proof {
                        lemma_kept_values_extend(func, items, c - 1);
                    }
                    match result {
                        Some(b) => {
                            proof {
                                lemma_kept_values_prefix(func, items, c);
                                let n = kept_values(func, items.take(c - 1)).len() as int;
                                assert(kept_values(func, items.take(c))[n] == b);
                            }
                            return Some(b);
                        },
                        None => {},
                    }
                },
                None => {
                    return None;
                },
            }
        }
    }
}

} // verus!
