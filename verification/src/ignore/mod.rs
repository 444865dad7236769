//! Which paths of a working tree are ignored: lists of patterns, each read from one
//! source, and the search for the one pattern that governs a path.

use vstd::prelude::*;
use crate::ignore::search::List;

pub mod laws;
pub mod lists;
pub mod parse;
pub mod search;

verus! {

/// What matching a pattern says of a path.
#[derive(Clone, Copy, Debug, PartialEq, Eq, Structural, Hash, PartialOrd, Ord, Default)]
pub enum Kind {
    /// The path is ignored and may be removed at any time.
    #[default]
    Expendable,
    /// The path is ignored, but must not be removed.
    Precious,
}

/// The lists of patterns that decide together whether a path is ignored. A list that
/// was added later outranks every list added before it.
#[derive(Clone, Debug, PartialEq, Eq, Hash, PartialOrd, Ord, Default)]
pub struct Search {
    /// The lists in the order in which they were added.
    pub patterns: Vec<List>,
}

} // verus!
