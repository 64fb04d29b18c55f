//! Caller-supplied functions as the adapters see them.
//!
//! An adapter describes its items by what its function returns. That gives a
//! sequence only if the function can be called on every item it will meet and
//! returns one value for one argument.

use vstd::prelude::*;

verus! {

/// `f` may be called on `x`, and every call on `x` returns the same value.
pub open spec fn is_function_at<A, R, F: FnMut(A) -> R>(f: F, x: A) -> bool {
    &&& call_requires(f, (x,))
    &&& forall|y1: R, y2: R|
        #![trigger call_ensures(f, (x,), y1), call_ensures(f, (x,), y2)]
        call_ensures(f, (x,), y1) && call_ensures(f, (x,), y2) ==> y1 == y2
}

/// `f` is a function at every one of `items`.
pub open spec fn is_function_on<A, R, F: FnMut(A) -> R>(f: F, items: Seq<A>) -> bool {
    forall|i: int| 0 <= i < items.len() ==> is_function_at(f, #[trigger] items[i])
}

/// The value that `f` returns on `x`, where `f` returns at all.
pub open spec fn value_at<A, R, F: FnMut(A) -> R>(f: F, x: A) -> R {
    choose|y: R| call_ensures(f, (x,), y)
}

/// `f` as a mathematical function: `x` to `value_at(f, x)`.
pub open spec fn as_spec_fn<A, R, F: FnMut(A) -> R>(f: F) -> spec_fn(A) -> R {
    |x: A| value_at(f, x)
}

/// The arguments on which an optional-valued `f` returns `Some`.
pub open spec fn as_spec_keep<A, R, F: FnMut(A) -> Option<R>>(f: F) -> spec_fn(A) -> bool {
    |x: A| value_at(f, x) is Some
}

/// `p` may be called on a reference to `x`, and it does not answer both ways.
pub open spec fn decides<T, P: FnMut(&T) -> bool>(p: P, x: T) -> bool {
    &&& call_requires(p, (&x,))
    &&& !(call_ensures(p, (&x,), true) && call_ensures(p, (&x,), false))
}

/// `p` decides every one of `items`.
pub open spec fn decides_all<T, P: FnMut(&T) -> bool>(p: P, items: Seq<T>) -> bool {
    forall|i: int| 0 <= i < items.len() ==> decides(p, #[trigger] items[i])
}

/// `p` answers `true` on a reference to `x`.
pub open spec fn accepts<T, P: FnMut(&T) -> bool>(p: P, x: T) -> bool {
    call_ensures(p, (&x,), true)
}

/// `p` as a mathematical predicate: the items it accepts.
pub open spec fn as_spec_pred<T, P: FnMut(&T) -> bool>(p: P) -> spec_fn(T) -> bool {
    |x: T| accepts(p, x)
}

} // verus!
