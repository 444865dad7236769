//! The events that a configuration file is read into, and the body of a section made
//! of them.

use vstd::prelude::*;
use crate::config::value_name::ValueName;


pub mod body;
pub mod value;
pub mod value_name;

verus! {

/// A comment, from its marker to the end of the line.
#[derive(Clone, Debug, PartialEq, Eq, Hash, PartialOrd, Ord)]
pub struct Comment {
    /// The marker that began the comment, `;` or `#`.
    pub tag: u8,
    /// What followed the marker.
    pub text: Vec<u8>,
}

/// The header of a section, like `[remote "origin"]`.
#[derive(Clone, Debug, PartialEq, Eq, Hash, PartialOrd, Ord)]
pub struct Header {
    /// The name of the section.
    pub name: Vec<u8>,
    /// What stood between the name and the subsection name, if anything did.
    pub separator: Option<Vec<u8>>,
    /// The name of the subsection, if the header has one.
    pub subsection_name: Option<Vec<u8>>,
}

/// One piece of a configuration file. Put one after the other, the events give the
/// file back byte by byte.
#[derive(Clone, Debug, PartialEq, Eq)]
pub enum Event {
    /// A comment.
    Comment(Comment),
    /// The header that starts a section.
    SectionHeader(Header),
    /// The name of a value. What follows up to the next name belongs to it.
    SectionValueName(ValueName),
    /// A value that stands on one line. It is empty where the name stood alone.
    Value(Vec<u8>),
    /// The end of a line.
    Newline(Vec<u8>),
    /// A part of a value that goes on in the next line.
    ValueNotDone(Vec<u8>),
    /// The last part of a value that began in an earlier line.
    ValueDone(Vec<u8>),
    /// Blanks that mean nothing.
    Whitespace(Vec<u8>),
    /// The `=` between a name and its value.
    KeyValueSeparator,
}

} // verus!
