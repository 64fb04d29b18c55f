//! The adapter that keeps the items a predicate accepts.

use crate::bidir_iterator::BidirIterator;
use crate::callable::{accepts, as_spec_pred, decides_all};
use crate::cursor::{
    backward_run, forward_run, lemma_backward_run_is_reversed_prefix, lemma_forward_run_is_suffix,
    seek_backward, seek_forward, step_next, step_prev,
};
use vstd::prelude::*;

verus! {

/// A bidirectional iterator over the items of another that a predicate
/// accepts. One step takes as many steps of the wrapped iterator as it needs
/// to reach an accepted item or the end of the sequence. Nothing is kept
/// between calls: the predicate is asked again about every item a call passes.
pub struct Filter<B, P> {
    iter: B,
    predicate: P,
}

impl<B, P> Filter<B, P> {
    /// The wrapped iterator.
    pub closed spec fn inner(&self) -> B {
        self.iter
    }

    /// The predicate that picks the items.
    pub closed spec fn pred(&self) -> P {
        self.predicate
    }

    pub(crate) fn new(iter: B, predicate: P) -> (adapter: Self)
        ensures
            adapter.inner() == iter,
            adapter.pred() == predicate,
    {
        Filter { iter, predicate }
    }
}

/// The items of `items` that `p` accepts, in their order.
pub open spec fn kept_items<T, P: FnMut(&T) -> bool>(p: P, items: Seq<T>) -> Seq<T> {
    items.filter(as_spec_pred(p))
}

/// Taking one more item into a prefix adds that item to the kept ones if `p`
/// accepts it, and nothing otherwise.
pub proof fn lemma_kept_extend<T, P: FnMut(&T) -> bool>(p: P, items: Seq<T>, c: int)
    requires
        0 <= c < items.len(),
    ensures
        kept_items(p, items.take(c + 1)) == if accepts(p, items[c]) {
            kept_items(p, items.take(c)).push(items[c])
        } else {
            kept_items(p, items.take(c))
        },
{
    assert(items.take(c + 1) =~= items.take(c).push(items[c]));
    items.take(c).lemma_filter_push(items[c], as_spec_pred(p));
}

/// The kept items of a sequence start with the kept items of each of its
/// prefixes.
pub proof fn lemma_kept_prefix<T, P: FnMut(&T) -> bool>(p: P, items: Seq<T>, c: int)
    requires
        0 <= c <= items.len(),
    ensures
        kept_items(p, items) == kept_items(p, items.take(c)) + kept_items(p, items.skip(c)),
{
    assert(items =~= items.take(c) + items.skip(c));
    Seq::filter_distributes_over_add(items.take(c), items.skip(c), as_spec_pred(p));
}

/// Of a single item, the kept items are the item itself if `p` accepts it, and
/// none otherwise.
pub proof fn lemma_kept_single<T, P: FnMut(&T) -> bool>(p: P, x: T)
    ensures
        kept_items(p, seq![x]) == if accepts(p, x) {
            seq![x]
        } else {
            Seq::<T>::empty()
        },
{
    Seq::<T>::empty().lemma_filter_push(x, as_spec_pred(p));
}

/// Iterating forward over the kept items, from the cursor that has the kept
/// items of the first `c` items before it, yields the kept items among what
/// iterating forward over all items from cursor `c` yields.
pub proof fn lemma_kept_forward_run<T, P: FnMut(&T) -> bool>(p: P, items: Seq<T>, c: int)
    requires
        0 <= c <= items.len(),
    ensures
        forward_run(kept_items(p, items), kept_items(p, items.take(c)).len() as int) == kept_items(
            p,
            forward_run(items, c),
        ),
{
    let kept = kept_items(p, items);
    let k = kept_items(p, items.take(c)).len() as int;
    lemma_kept_prefix(p, items, c);
    lemma_forward_run_is_suffix(items, c);
    lemma_forward_run_is_suffix(kept, k);
}

/// Iterating backward over the kept items, from the cursor that has the kept
/// items of the first `c` items before it, yields the kept items among what
/// iterating backward over all items from cursor `c` yields.
pub proof fn lemma_kept_backward_run<T, P: FnMut(&T) -> bool>(p: P, items: Seq<T>, c: int)
    requires
        0 <= c <= items.len(),
    ensures
        backward_run(kept_items(p, items), kept_items(p, items.take(c)).len() as int)
            == kept_items(p, backward_run(items, c)),
    decreases c,
{
    if c == 0 {
    } else {
        let x = items[c - 1];
        let rest = backward_run(items, c - 1);
        lemma_kept_backward_run(p, items, c - 1);
        lemma_kept_extend(p, items, c - 1);
        lemma_kept_prefix(p, items, c);
        lemma_kept_single(p, x);
        Seq::filter_distributes_over_add(seq![x], rest, as_spec_pred(p));
    }
}

impl<B: BidirIterator, P> Filter<B, P> where P: FnMut(&B::Item) -> bool {
    /// The adapter's well-formedness, items and cursor in terms of the
    /// wrapped iterator and of the predicate. This is what the trait's
    /// functions are defined to be. A caller that has built the adapter over
    /// a closure or a named function calls the lemma to learn it: at such a
    /// type the definitions are not unfolded for it.
    pub proof fn lemma_model(&self)
        ensures
            self.wf() <==> self.inner().wf() && decides_all(self.pred(), self.inner().items()),
            self.items() == kept_items(self.pred(), self.inner().items()),
            self.pos() == kept_items(
                self.pred(),
                self.inner().items().take(self.inner().pos()),
            ).len(),
    {
    }

    /// Iterating forward through the filter from its start yields the items
    /// of the wrapped iterator's sequence that the predicate accepts, in their
    /// order; iterating backward from its end yields the same items in
    /// reverse order.
    pub proof fn lemma_filter_preserves_order(&self)
        ensures
            forward_run(self.items(), 0) == kept_items(self.pred(), self.inner().items()),
            backward_run(self.items(), self.items().len() as int) == kept_items(
                self.pred(),
                self.inner().items(),
            ).reverse(),
    {
        let kept = self.items();
        lemma_forward_run_is_suffix(kept, 0);
        lemma_backward_run_is_reversed_prefix(kept, kept.len() as int);
    }

    /// From any cursor, iterating forward through the filter to its end
    /// yields the accepted items among what the wrapped iterator yields when
    /// iterated forward to its end; the same holds backward.
    pub proof fn lemma_filter_commutes_with_direction(&self)
        requires
            self.inner().wf(),
        ensures
            forward_run(self.items(), self.pos()) == kept_items(
                self.pred(),
                forward_run(self.inner().items(), self.inner().pos()),
            ),
            backward_run(self.items(), self.pos()) == kept_items(
                self.pred(),
                backward_run(self.inner().items(), self.inner().pos()),
            ),
    {
        self.inner().lemma_cursor_in_range();
        lemma_kept_forward_run(self.pred(), self.inner().items(), self.inner().pos());
        lemma_kept_backward_run(self.pred(), self.inner().items(), self.inner().pos());
    }
}

impl<B: BidirIterator, P> BidirIterator for Filter<B, P> where P: FnMut(&B::Item) -> bool {
    type Item = B::Item;

    /// The wrapped iterator is well-formed and the predicate decides each of
    /// its items.
    open spec fn wf(&self) -> bool {
        self.inner().wf() && decides_all(self.pred(), self.inner().items())
    }

    /// The accepted items of the wrapped iterator's sequence.
    open spec fn items(&self) -> Seq<B::Item> {
        kept_items(self.pred(), self.inner().items())
    }

    /// The number of accepted items before the wrapped iterator's cursor.
    open spec fn pos(&self) -> int {
        kept_items(self.pred(), self.inner().items().take(self.inner().pos())).len() as int
    }

    proof fn lemma_cursor_in_range(&self) {
        self.inner().lemma_cursor_in_range();
        lemma_kept_prefix(self.pred(), self.inner().items(), self.inner().pos());
    }

    /// Steps the wrapped iterator forward until the predicate accepts an item,
    /// which is returned, or until that iterator is at its end. The wrapped
    /// iterator stops just past the returned item.
    ///
    /// The first two clauses are the trait's, said again at the adapter's own
    /// item type, where a caller that has built the adapter over a closure or
    /// a named function can use them.
    #[verifier::loop_isolation(false)]
    fn next(&mut self) -> (item: Option<B::Item>)
        ensures
            item == step_next((*old(self)).items(), (*old(self)).pos()).0,
            (*final(self)).pos() == step_next((*old(self)).items(), (*old(self)).pos()).1,
            final(self).pred() == old(self).pred(),
            final(self).inner().items() == old(self).inner().items(),
            final(self).inner().pos() == seek_forward(
                old(self).inner().items(),
                as_spec_pred(old(self).pred()),
                old(self).inner().pos(),
            ),
    {
        let ghost items = self.iter.items();
        let ghost start = self.iter.pos();
        let ghost pred = self.predicate;
        proof {
            self.iter.lemma_cursor_in_range();
        }
        loop
            invariant
                self.iter.wf(),
                self.iter.items() == items,
                self.predicate == pred,
                0 <= start <= self.iter.pos() <= items.len(),
                kept_items(pred, items.take(self.iter.pos())) == kept_items(pred, items.take(start)),
                seek_forward(items, as_spec_pred(pred), self.iter.pos()) == seek_forward(
                    items,
                    as_spec_pred(pred),
                    start,
                ),
            decreases items.len() - self.iter.pos(),
        {
            let ghost c = self.iter.pos();
            match self.iter.next() {
                Some(i) => {
                    proof {
                        lemma_kept_extend(pred, items, c);
                    }
                    if (self.predicate)(&i) {
                        proof {
                            lemma_kept_prefix(pred, items, c + 1);
                        }
                        return Some(i);
                    }
                },
                None => {
                    proof {
                        assert(items.take(c) =~= items);
                    }
                    return None;
                },
            }
        }
    }

    /// Steps the wrapped iterator backward until the predicate accepts an
    /// item, which is returned, or until that iterator is at its start. The
    /// wrapped iterator stops just before the returned item.
    ///
    /// The first two clauses are the trait's, said again at the adapter's own
    /// item type, where a caller that has built the adapter over a closure or
    /// a named function can use them.
    #[verifier::loop_isolation(false)]
    fn prev(&mut self) -> (item: Option<B::Item>)
        ensures
            item == step_prev((*old(self)).items(), (*old(self)).pos()).0,
            (*final(self)).pos() == step_prev((*old(self)).items(), (*old(self)).pos()).1,
            final(self).pred() == old(self).pred(),
            final(self).inner().items() == old(self).inner().items(),
            final(self).inner().pos() == seek_backward(
                old(self).inner().items(),
                as_spec_pred(old(self).pred()),
                old(self).inner().pos(),
            ),
    {
        let ghost items = self.iter.items();
        let ghost start = self.iter.pos();
        let ghost pred = self.predicate;
        proof {
            self.iter.lemma_cursor_in_range();
        }
        loop
            invariant
                self.iter.wf(),
                self.iter.items() == items,
                self.predicate == pred,
                0 <= self.iter.pos() <= start <= items.len(),
                kept_items(pred, items.take(self.iter.pos())) == kept_items(pred, items.take(start)),
                seek_backward(items, as_spec_pred(pred), self.iter.pos()) == seek_backward(
                    items,
                    as_spec_pred(pred),
                    start,
                ),
            decreases self.iter.pos(),
        {
            let ghost c = self.iter.pos();
            match self.iter.prev() {
                Some(i) => {
                    proof {
                        lemma_kept_extend(pred, items, c - 1);
                    }
                    if (self.predicate)(&i) {
                        proof {
                            lemma_kept_prefix(pred, items, c);
                        }
                        return Some(i);
                    }
                },
                None => {
                    return None;
                },
            }
        }
    }
}

} // verus!
