//! Remotes of a repository.

use vstd::prelude::*;

pub mod name;

verus! {

/// The name of a remote: a symbol that stands for a section of the configuration, or
/// a URL that is used as it is.
#[derive(Clone, Debug, PartialEq, Eq, Hash, PartialOrd, Ord)]
pub enum Name {
    /// A name like `origin`, which is valid text.
    Symbol(String),
    /// A URL or a path, like `https://example.com/repo` or `../sibling`.
    Url(Vec<u8>),
}

} // verus!
