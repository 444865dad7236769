//! Types of other crates that values of this crate hold without looking inside.

use gix_error::Error as Failure;
use vstd::prelude::*;

verus! {

/// `std::path::PathBuf`: the path of a file, kept to tell where patterns came from.
#[verifier::external_type_specification]
#[verifier::external_body]
pub struct ExPathBuf(std::path::PathBuf);

/// `gix_error::Error`: why a call into one of the `gix` crates failed.
#[verifier::external_type_specification]
#[verifier::external_body]
pub struct ExFailure(Failure);

/// `gix_hash::ObjectId`: the hash that names an object.
#[verifier::external_type_specification]
#[verifier::external_body]
pub struct ExObjectId(gix_hash::ObjectId);

/// An object id is copied bit by bit, so its clone is the id itself.
pub assume_specification[ <gix_hash::ObjectId as Clone>::clone ](id: &gix_hash::ObjectId) -> (r:
    gix_hash::ObjectId)
    ensures
        r == *id,
;

} // verus!
