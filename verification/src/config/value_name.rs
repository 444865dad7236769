//! The name of a value, which is compared without regard to the case of letters.

use vstd::prelude::*;
use vstd::std_specs::cmp::PartialEqSpecImpl;
use crate::bytes::{eq_ignore_ascii_case, eq_ignore_case};

verus! {

/// The name of a value in a section, like `url` in `url = ...`.
#[derive(Clone, Debug, Eq)]
pub struct ValueName(pub Vec<u8>);

impl ValueName {
    /// The name with the bytes of `name`, whatever they are.
    pub fn from_str_unchecked(name: &str) -> (r: ValueName)
        ensures
            r.0@ == vstd::utf8::encode_utf8(name@),
    {
        let mut bytes: Vec<u8> = Vec::new();
        bytes.extend_from_slice(name.as_bytes());
        assert(bytes@ =~= vstd::utf8::encode_utf8(name@));
        ValueName(bytes)
    }

    /// Whether this is the name that `name` writes, letters compared without regard
    /// to case.
    pub open spec fn is(&self, name: Seq<u8>) -> bool {
        eq_ignore_case(self.0@, name)
    }
}

impl PartialEq for ValueName {
    fn eq(&self, other: &Self) -> (r: bool) {
        eq_ignore_ascii_case(self.0.as_slice(), other.0.as_slice())
    }
}

impl PartialEqSpecImpl for ValueName {
    open spec fn obeys_eq_spec() -> bool {
        true
    }

    open spec fn eq_spec(&self, other: &Self) -> bool {
        eq_ignore_case(self.0@, other.0@)
    }
}

} // verus!
