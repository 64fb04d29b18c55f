//! The bidirectional iterator trait and the two views that fix a direction.

use crate::cursor::{
    backward_run, forward_run, lemma_backward_run_is_reversed_prefix, lemma_forward_run_is_suffix,
    step_next, step_prev,
};
use crate::filter::Filter;
use crate::filter_map::FilterMap;
use crate::mapped::Mapped;
use vstd::prelude::*;

verus! {

/// An iterator that can step forward and backward over a fixed sequence.
///
/// An implementation names the sequence it ranges over (`items`) and its
/// cursor (`pos`, the number of items before it). `next` returns the item
/// after the cursor and moves past it; `prev` returns the item before the
/// cursor and moves back over it. At the end `next` returns `None`, at the
/// start `prev` does, and the cursor stays. Neither call changes the sequence.
///
/// The combinators wrap the iterator: the views fix one direction, the
/// adapters filter or transform the items and are bidirectional iterators
/// themselves.
pub trait BidirIterator {
    type Item;

    /// The iterator is in a state in which it may be stepped.
    spec fn wf(&self) -> bool;

    /// The items the iterator ranges over, first to last.
    spec fn items(&self) -> Seq<Self::Item>;

    /// The cursor: how many of the items lie before it.
    spec fn pos(&self) -> int;

    /// The cursor of a well-formed iterator lies within its sequence or at one
    /// of its two ends.
    proof fn lemma_cursor_in_range(&self)
        requires
            self.wf(),
        ensures
            0 <= self.pos() <= self.items().len(),
    ;

    /// Returns the item after the cursor and moves the cursor past it, or
    /// returns `None` at the end.
    fn next(&mut self) -> (item: Option<Self::Item>)
        requires
            (*old(self)).wf(),
        ensures
            (*final(self)).wf(),
            (*final(self)).items() == (*old(self)).items(),
            item == step_next((*old(self)).items(), (*old(self)).pos()).0,
            (*final(self)).pos() == step_next((*old(self)).items(), (*old(self)).pos()).1,
    ;

    /// Returns the item before the cursor and moves the cursor back over it,
    /// or returns `None` at the start.
    fn prev(&mut self) -> (item: Option<Self::Item>)
        requires
            (*old(self)).wf(),
        ensures
            (*final(self)).wf(),
            (*final(self)).items() == (*old(self)).items(),
            item == step_prev((*old(self)).items(), (*old(self)).pos()).0,
            (*final(self)).pos() == step_prev((*old(self)).items(), (*old(self)).pos()).1,
    ;

    /// A forward view that borrows this iterator. The view starts at the
    /// current cursor, and when the borrow ends the iterator is what the view
    /// has made of it.
    fn forward(&mut self) -> (view: Forward<&mut Self>) where Self: Sized
        ensures
            *view.inner() == *old(self),
            *final(view.inner()) == *final(self),
    {
        Forward::new(self)
    }

    /// A forward view that owns this iterator, starting at the current cursor.
    fn forward_owned(self) -> (view: Forward<Self>) where Self: Sized
        ensures
            view.inner() == self,
    {
        Forward::new(self)
    }

    /// A backward view that borrows this iterator. The view starts at the
    /// current cursor, and when the borrow ends the iterator is what the view
    /// has made of it.
    fn backward(&mut self) -> (view: Backward<&mut Self>) where Self: Sized
        ensures
            *view.inner() == *old(self),
            *final(view.inner()) == *final(self),
    {
        Backward::new(self)
    }

    /// A backward view that owns this iterator, starting at the current cursor.
    fn backward_owned(self) -> (view: Backward<Self>) where Self: Sized
        ensures
            view.inner() == self,
    {
        Backward::new(self)
    }

    /// An iterator over those of this iterator's items that `predicate`
    /// accepts. It owns this iterator and starts at its cursor.
    fn filter<P>(self, predicate: P) -> (adapter: Filter<Self, P>) where
        Self: Sized,
        P: FnMut(&Self::Item) -> bool,

        ensures
            adapter.inner() == self,
            adapter.pred() == predicate,
    {
        Filter::new(self, predicate)
    }

    /// An iterator over the values of `f` on this iterator's items. It owns
    /// this iterator and starts at its cursor.
    fn map<B, F>(self, f: F) -> (adapter: Mapped<Self, F>) where
        Self: Sized,
        F: FnMut(Self::Item) -> B,

        ensures
            adapter.inner() == self,
            adapter.func() == f,
    {
        Mapped::new(self, f)
    }

    /// An iterator over the values that `f` returns on this iterator's items,
    /// without the items on which it returns `None`. It owns this iterator and
    /// starts at its cursor.
    fn filter_map<B, F>(self, f: F) -> (adapter: FilterMap<Self, F>) where
        Self: Sized,
        F: FnMut(Self::Item) -> Option<B>,

        ensures
            adapter.inner() == self,
            adapter.func() == f,
    {
        FilterMap::new(self, f)
    }
}

/// A mutable borrow of an iterator is an iterator over the same items with the
/// same cursor. Stepping it steps the borrowed iterator, and it goes on
/// borrowing the same iterator.
impl<T: BidirIterator> BidirIterator for &mut T {
    type Item = T::Item;

    open spec fn wf(&self) -> bool {
        (**self).wf()
    }

    open spec fn items(&self) -> Seq<Self::Item> {
        (**self).items()
    }

    open spec fn pos(&self) -> int {
        (**self).pos()
    }

    proof fn lemma_cursor_in_range(&self) {
        (**self).lemma_cursor_in_range();
    }

    fn next(&mut self) -> (item: Option<Self::Item>)
        ensures
            *final(*final(self)) == *final(*old(self)),
    {
        (**self).next()
    }

    fn prev(&mut self) -> (item: Option<Self::Item>)
        ensures
            *final(*final(self)) == *final(*old(self)),
    {
        (**self).prev()
    }
}

/// A single-direction view of a bidirectional iterator: its `next` is the
/// wrapped iterator's `next`. The view has no state of its own.
pub struct Forward<T> {
    iter: T,
}

impl<T> Forward<T> {
    /// The wrapped iterator.
    pub closed spec fn inner(&self) -> T {
        self.iter
    }

    pub(crate) fn new(iter: T) -> (view: Self)
        ensures
            view.inner() == iter,
    {
        Forward { iter }
    }
}

impl<B: BidirIterator> Forward<B> {
    /// The view may be advanced: the wrapped iterator is well-formed.
    pub open spec fn wf(&self) -> bool {
        self.inner().wf()
    }

    /// The items the view has yet to return, in the order in which it returns
    /// them.
    pub open spec fn remaining(&self) -> Seq<B::Item> {
        forward_run(self.inner().items(), self.inner().pos())
    }

    /// Advances the view by one call of `next` on the wrapped iterator.
    pub fn next(&mut self) -> (item: Option<B::Item>)
        requires
            old(self).wf(),
        ensures
            final(self).wf(),
            final(self).inner().items() == old(self).inner().items(),
            item == step_next(old(self).inner().items(), old(self).inner().pos()).0,
            final(self).inner().pos() == step_next(
                old(self).inner().items(),
                old(self).inner().pos(),
            ).1,
    {
        self.iter.next()
    }

    /// Advances the view until it returns `None` and returns the items it
    /// yields on the way, in the order in which it yields them. The wrapped
    /// iterator is left at its end.
    #[verifier::loop_isolation(false)]
    pub fn collect(&mut self) -> (yielded: Vec<B::Item>)
        requires
            old(self).wf(),
        ensures
            final(self).wf(),
            final(self).inner().items() == old(self).inner().items(),
            final(self).inner().pos() == old(self).inner().items().len(),
            yielded@ == old(self).remaining(),
    {
        let ghost items = self.iter.items();
        let ghost start = self.iter.pos();
        let mut yielded: Vec<B::Item> = Vec::new();
        proof {
            self.iter.lemma_cursor_in_range();
            lemma_forward_run_is_suffix(items, start);
        }
        loop
            invariant
                self.iter.wf(),
                self.iter.items() == items,
                0 <= start <= self.iter.pos() <= items.len(),
                yielded@ == items.subrange(start, self.iter.pos()),
            decreases items.len() - self.iter.pos(),
        {
            match self.iter.next() {
                Some(item) => {
                    yielded.push(item);
                },
                None => {
                    return yielded;
                },
            }
        }
    }
}

/// A single-direction view of a bidirectional iterator: its `next` is the
/// wrapped iterator's `prev`. The view has no state of its own.
pub struct Backward<B> {
    iter: B,
}

impl<B> Backward<B> {
    /// The wrapped iterator.
    pub closed spec fn inner(&self) -> B {
        self.iter
    }

    pub(crate) fn new(iter: B) -> (view: Self)
        ensures
            view.inner() == iter,
    {
        Backward { iter }
    }
}

impl<B: BidirIterator> Backward<B> {
    /// The view may be advanced: the wrapped iterator is well-formed.
    pub open spec fn wf(&self) -> bool {
        self.inner().wf()
    }

    /// The items the view has yet to return, in the order in which it returns
    /// them.
    pub open spec fn remaining(&self) -> Seq<B::Item> {
        backward_run(self.inner().items(), self.inner().pos())
    }

    /// Advances the view by one call of `prev` on the wrapped iterator.
    pub fn next(&mut self) -> (item: Option<B::Item>)
        requires
            old(self).wf(),
        ensures
            final(self).wf(),
            final(self).inner().items() == old(self).inner().items(),
            item == step_prev(old(self).inner().items(), old(self).inner().pos()).0,
            final(self).inner().pos() == step_prev(
                old(self).inner().items(),
                old(self).inner().pos(),
            ).1,
    {
        self.iter.prev()
    }

    /// Advances the view until it returns `None` and returns the items it
    /// yields on the way, in the order in which it yields them. The wrapped
    /// iterator is left at its start.
    #[verifier::loop_isolation(false)]
    pub fn collect(&mut self) -> (yielded: Vec<B::Item>)
        requires
            old(self).wf(),
        ensures
            final(self).wf(),
            final(self).inner().items() == old(self).inner().items(),
            final(self).inner().pos() == 0,
            yielded@ == old(self).remaining(),
    {
        let ghost items = self.iter.items();
        let ghost start = self.iter.pos();
        let mut yielded: Vec<B::Item> = Vec::new();
        proof {
            self.iter.lemma_cursor_in_range();
            lemma_backward_run_is_reversed_prefix(items, start);
        }
        loop
            invariant
                self.iter.wf(),
                self.iter.items() == items,
                0 <= self.iter.pos() <= start <= items.len(),
                yielded@ == items.subrange(self.iter.pos(), start).reverse(),
            decreases self.iter.pos(),
        {
            match self.iter.prev() {
                Some(item) => {
                    yielded.push(item);
                },
                None => {
                    return yielded;
                },
            }
        }
    }
}

} // verus!
