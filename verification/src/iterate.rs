//! Bidirectional iteration over a borrowed slice.

use crate::bidir_iterator::BidirIterator;
use vstd::prelude::*;

verus! {

/// A container that can hand out a bidirectional iterator over its elements.
pub trait BidirIterate {
    type Item;

    type BidirIter: BidirIterator<Item = Self::Item>;

    /// The elements of the container, in the order of iteration.
    spec fn elements(&self) -> Seq<Self::Item>;

    /// An iterator over the container's elements, its cursor before the first.
    fn bidir_iter(&self) -> (iter: Self::BidirIter)
        ensures
            iter.wf(),
            iter.items() == self.elements(),
            iter.pos() == 0,
    ;
}

/// A bidirectional iterator over a borrowed slice. It yields references to the
/// slice's elements and never changes the slice. Its cursor is the index of
/// the element that `next` returns; it starts at `0` and never leaves
/// `0..=len`.
pub struct BiIter<'a, T> {
    next: usize,
    slice: &'a [T],
}

impl<'a, T> BidirIterator for BiIter<'a, T> {
    type Item = &'a T;

    /// The cursor is an index into the slice or its length.
    closed spec fn wf(&self) -> bool {
        self.next <= self.slice@.len()
    }

    /// References to the slice's elements, in the slice's order.
    closed spec fn items(&self) -> Seq<&'a T> {
        self.slice@.map_values(|x: T| &x)
    }

    closed spec fn pos(&self) -> int {
        self.next as int
    }

    proof fn lemma_cursor_in_range(&self) {
    }

    /// Returns the element at the cursor and moves the cursor to the next
    /// index; at the end of the slice it returns `None` and the cursor stays.
    fn next(&mut self) -> (item: Option<&'a T>) {
        let item = self.slice.get(self.next);
        if item.is_some() {
            self.next += 1;
        }
        item
    }

    /// Moves the cursor to the index before and returns the element there; at
    /// the start of the slice it returns `None` and the cursor stays at `0`.
    fn prev(&mut self) -> (item: Option<&'a T>) {
        if self.next == 0 {
            None
        } else {
            self.next -= 1;
            self.slice.get(self.next)
        }
    }
}

impl<'a, T> BidirIterate for &'a [T] {
    type Item = &'a T;

    type BidirIter = BiIter<'a, T>;

    /// References to the slice's elements, in the slice's order.
    open spec fn elements(&self) -> Seq<&'a T> {
        self@.map_values(|x: T| &x)
    }

    fn bidir_iter(&self) -> (iter: Self::BidirIter) {
        BiIter { next: 0, slice: self }
    }
}

} // verus!
