//! Telling the symbolic name of a remote from a URL, and checking that a symbolic
//! name can stand in the ref of a tracking branch.

use vstd::prelude::*;
use vstd::utf8::{decode_utf8, encode_utf8, valid_utf8};
use crate::bytes::{contains_byte, has_byte, SLASH};
use crate::remote::Name;
use crate::text::string_from_utf8;

verus! {

/// The byte that alone names the current directory.
pub const DOT: u8 = 46;

/// What `validated` returns for a name that cannot stand in a ref.
#[derive(Debug)]
pub struct Error {
    /// Why the refspec made of the name was refused.
    pub source: gix_error::Error,
    /// The name that was refused.
    pub name: Vec<u8>,
}

/// The text that `bstr` shows for `bytes`: the bytes decoded as UTF-8, with the
/// replacement character in place of what is not valid.
pub uninterp spec fn displayed(bytes: Seq<u8>) -> Seq<char>;

/// Whether `gix_refspec` accepts `spec` as a refspec for fetching.
pub uninterp spec fn valid_fetch_refspec(spec: Seq<u8>) -> bool;

/// The refspec that fetches a branch into the tracking branch of the remote `name`.
pub open spec fn tracking_refspec(name: Seq<u8>) -> Seq<u8> {
    encode_utf8("refs/heads/test:refs/remotes/"@) + encode_utf8(displayed(name)) + encode_utf8(
        "/test"@,
    )
}

/// Whether `name` is taken for a URL: it holds a slash or is a single dot.
pub open spec fn is_url(name: Seq<u8>) -> bool {
    has_byte(name, SLASH) || name == seq![DOT]
}

/// A name as a mathematical value.
pub enum NameView {
    Symbol(Seq<char>),
    Url(Seq<u8>),
}

impl View for Name {
    type V = NameView;

    open spec fn view(&self) -> NameView {
        match self {
            Name::Symbol(text) => NameView::Symbol(text@),
            Name::Url(bytes) => NameView::Url(bytes@),
        }
    }
}

impl NameView {
    /// The bytes of the name.
    pub open spec fn bytes(self) -> Seq<u8> {
        match self {
            NameView::Symbol(text) => encode_utf8(text),
            NameView::Url(bytes) => bytes,
        }
    }
}

/// Formats `name` as `bstr` displays a byte string. The contract names the result,
/// and claims that valid UTF-8 is shown as the text that it encodes: the outside
/// code writes valid stretches as they are and replaces only what is invalid.
#[verifier::external_body]
fn display(name: &[u8]) -> (r: String)
    ensures
        r@ == displayed(name@),
        valid_utf8(name@) ==> r@ == decode_utf8(name@),
{
    format!("{}", bstr::BStr::new(name))
}

/// Calls `gix_refspec::parse` for a fetch and keeps only whether it accepted the
/// refspec, and the error if it did not. The contract names the answer.
#[verifier::external_body]
fn parse_fetch_refspec(spec: &[u8]) -> (r: Result<(), gix_error::Error>)
    ensures
        r is Ok == valid_fetch_refspec(spec@),
{
    gix_refspec::parse(spec.into(), gix_refspec::parse::Operation::Fetch).map(|_| ())
}

/// Returns `name` if it can be the symbolic name of a remote, which is the case if
/// the refspec of its tracking branch is a valid one.
pub fn validated(name: Vec<u8>) -> (r: Result<Vec<u8>, Error>)
    ensures
        r is Ok == valid_fetch_refspec(tracking_refspec(name@)),
        r matches Ok(same) ==> same@ == name@,
        r matches Err(e) ==> e.name@ == name@,
{
    let shown = display(name.as_slice());
    let mut spec: Vec<u8> = Vec::new();
    spec.extend_from_slice("refs/heads/test:refs/remotes/".as_bytes());
    spec.extend_from_slice(shown.as_str().as_bytes());
    spec.extend_from_slice("/test".as_bytes());
    assert(spec@ =~= tracking_refspec(name@));
    match parse_fetch_refspec(spec.as_slice()) {
        Ok(()) => Ok(name),
        Err(err) => Err(Error { source: err, name }),
    }
}

impl Name {
    /// The bytes of the name, whichever kind it is.
    pub fn as_bstr(&self) -> (r: &[u8])
        ensures
            r@ == self@.bytes(),
    {
        match self {
            Name::Symbol(text) => text.as_str().as_bytes(),
            Name::Url(bytes) => bytes.as_slice(),
        }
    }

    /// The name as text, if it is a symbol.
    pub fn as_symbol(&self) -> (r: Option<&str>)
        ensures
            match *self {
                Name::Symbol(text) => r matches Some(symbol) && symbol@ == text@,
                Name::Url(_) => r is None,
            },
    {
        match self {
            Name::Symbol(text) => Some(text.as_str()),
            Name::Url(_) => None,
        }
    }

    /// The name as bytes, if it is a URL.
    pub fn as_url(&self) -> (r: Option<&[u8]>)
        ensures
            match *self {
                Name::Url(bytes) => r matches Some(url) && url@ == bytes@,
                Name::Symbol(_) => r is None,
            },
    {
        match self {
            Name::Url(bytes) => Some(bytes.as_slice()),
            Name::Symbol(_) => None,
        }
    }

    /// A copy of the name that borrows nothing.
    pub fn to_owned(&self) -> (r: Name)
        ensures
            r@ == self@,
    {
        match self {
            Name::Symbol(text) => Name::Symbol(text.clone()),
            Name::Url(bytes) => Name::Url(bytes.clone()),
        }
    }

    /// Tells what kind of name `name` is. Bytes with a slash, and the single dot,
    /// are a URL. Other bytes are a symbol if they are valid UTF-8, and are handed
    /// back if they are not.
    pub fn try_from(name: Vec<u8>) -> (r: Result<Name, Vec<u8>>)
        ensures
            is_url(name@) ==> (r matches Ok(Name::Url(bytes)) && bytes@ == name@),
            !is_url(name@) && valid_utf8(name@) ==> (r matches Ok(Name::Symbol(text)) && encode_utf8(
                text@,
            ) == name@),
            !is_url(name@) && !valid_utf8(name@) ==> (r matches Err(given) && given@ == name@),
    {
        let single_dot = name.len() == 1 && name[0] == DOT;
        proof {
            if single_dot {
                assert(name@ =~= seq![DOT]);
            }
        }
        if contains_byte(name.as_slice(), SLASH) || single_dot {
            Ok(Name::Url(name))
        } else {
            match string_from_utf8(name) {
                Ok(text) => Ok(Name::Symbol(text)),
                Err(given) => Err(given),
            }
        }
    }

    /// The name that `name` is, for bytes that are a URL or valid UTF-8.
    pub fn from(name: Vec<u8>) -> (r: Name)
        requires
            is_url(name@) || valid_utf8(name@),
        ensures
            r@.bytes() == name@,
            r is Url == is_url(name@),
    {
        match Name::try_from(name) {
            Ok(found) => found,
            Err(given) => Name::Url(given),
        }
    }

    /// The bytes of the name, whichever kind it is.
    pub fn as_ref(&self) -> (r: &[u8])
        ensures
            r@ == self@.bytes(),
    {
        self.as_bstr()
    }
}

} // verus!
