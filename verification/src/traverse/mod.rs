//! Walking the trees of a repository: what a walk shows to the one who watches it,
//! and what the watcher may answer.

use gix_hash::ObjectId;
use vstd::prelude::*;

pub mod breadthfirst;

verus! {

/// The bits of a mode that tell the kind of an entry.
pub const KIND_MASK: u16 = 0o170000;

/// The kind bits of a tree.
pub const KIND_TREE: u16 = 0o040000;

/// An entry of a tree.
#[derive(Clone, Debug, PartialEq, Eq)]
pub struct Entry {
    /// The mode of the entry, as git stores it.
    pub mode: u16,
    /// The name of the entry within its tree.
    pub filename: Vec<u8>,
    /// The object that the entry stands for.
    pub oid: ObjectId,
}

impl Entry {
    /// Whether the entry is itself a tree.
    pub open spec fn spec_is_tree(&self) -> bool {
        self.mode & KIND_MASK == KIND_TREE
    }

    /// Whether the entry is itself a tree.
    #[verifier::when_used_as_spec(spec_is_tree)]
    pub fn is_tree(&self) -> (r: bool)
        ensures
            r == self.spec_is_tree(),
    {
        self.mode & KIND_MASK == KIND_TREE
    }
}

/// What the watcher of a walk answers when it is shown an entry.
#[derive(Clone, Copy, Debug, PartialEq, Eq, Structural, Hash, PartialOrd, Ord)]
pub enum Action {
    /// Go on, and walk into the entry if it is a tree.
    Continue,
    /// End the walk at once.
    Cancel,
    /// Go on, but do not walk into the entry.
    Skip,
}

impl Action {
    /// Whether the walk is to end.
    pub fn cancelled(&self) -> (r: bool)
        ensures
            r == (*self == Action::Cancel),
    {
        match self {
            Action::Cancel => true,
            _ => false,
        }
    }
}

/// The watcher of a walk. It is told the path of each entry piece by piece, is shown
/// the entry, and decides how the walk goes on.
pub trait Visit {
    /// Makes the path that was tracked last the current path.
    fn pop_back_tracked_path_and_set_current(&mut self);

    /// Makes the path that was tracked first the current path.
    fn pop_front_tracked_path_and_set_current(&mut self);

    /// Tracks the current path with `component` behind it, for a tree that is walked
    /// later.
    fn push_back_tracked_path_component(&mut self, component: &[u8]);

    /// Puts `component` behind the current path.
    fn push_path_component(&mut self, component: &[u8]);

    /// Takes the last component off the current path.
    fn pop_path_component(&mut self);

    /// Shows an entry that is a tree.
    fn visit_tree(&mut self, entry: &Entry) -> Action;

    /// Shows an entry that is no tree.
    fn visit_nontree(&mut self, entry: &Entry) -> Action;
}

} // verus!
