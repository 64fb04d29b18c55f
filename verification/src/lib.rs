//! Bidirectional iteration: a cursor over an ordered sequence that steps
//! forward with `next` and backward with `prev`, lazy adapters that keep both
//! directions, and views that fix one direction.
//!
//! Every iterator is described by the sequence of items it ranges over and by a
//! cursor that lies between two neighbouring items. The module `cursor` holds
//! that model and the laws that follow from it.

pub mod bidir_iterator;
pub mod callable;
pub mod cursor;
pub mod filter;
pub mod filter_map;
pub mod iterate;
pub mod mapped;

pub use crate::bidir_iterator::{Backward, BidirIterator, Forward};
pub use crate::filter::Filter;
pub use crate::filter_map::FilterMap;
pub use crate::iterate::{BiIter, BidirIterate};
pub use crate::mapped::Mapped;
