//! Writing the fields of a context as lines of `key=value`.
//!
//! The URL and the path come first, then protocol, host, user name, password and
//! refresh token, then the expiry date. A field that is not set is left out. Neither
//! key nor value may hold a line feed or a null byte: the first field that does ends
//! the writing with an error, and what was written before it stays.

use vstd::prelude::*;
use vstd::utf8::encode_utf8;
use crate::bytes::{contains_byte, has_byte, NEWLINE};
use crate::credentials::{Context, Error};
use crate::text::{decimal, i64_to_string};

verus! {

/// The byte between a key and its value.
pub const EQUALS: u8 = 61;

/// The null byte.
pub const NUL: u8 = 0;

/// Whether `key` and `value` can stand in a line: neither holds a line feed or a
/// null byte.
pub open spec fn is_valid(key: Seq<char>, value: Seq<u8>) -> bool {
    &&& !has_byte(encode_utf8(key), NUL)
    &&& !has_byte(encode_utf8(key), NEWLINE)
    &&& !has_byte(value, NUL)
    &&& !has_byte(value, NEWLINE)
}

/// The line that holds `key` and `value`.
pub open spec fn line_of(key: Seq<char>, value: Seq<u8>) -> Seq<u8> {
    encode_utf8(key) + seq![EQUALS] + value + seq![NEWLINE]
}

/// A field that is set, as its key and its value.
pub open spec fn slot(key: Seq<char>, value: Option<Seq<u8>>) -> Option<(Seq<char>, Seq<u8>)> {
    match value {
        Some(value) => Some((key, value)),
        None => None,
    }
}

/// The bytes of a text that may be missing.
pub open spec fn text_bytes(text: Option<String>) -> Option<Seq<u8>> {
    match text {
        Some(text) => Some(encode_utf8(text@)),
        None => None,
    }
}

/// Bytes that may be missing, as a mathematical value.
pub open spec fn some_bytes(bytes: Option<Vec<u8>>) -> Option<Seq<u8>> {
    match bytes {
        Some(bytes) => Some(bytes@),
        None => None,
    }
}

impl Context {
    /// The fields in the order in which they are written, each with its key, or
    /// nothing in its place where it is not set.
    pub open spec fn slots(&self) -> Seq<Option<(Seq<char>, Seq<u8>)>> {
        seq![
            slot("url"@, some_bytes(self.url)),
            slot("path"@, some_bytes(self.path)),
            slot("protocol"@, text_bytes(self.protocol)),
            slot("host"@, text_bytes(self.host)),
            slot("username"@, text_bytes(self.username)),
            slot("password"@, text_bytes(self.password)),
            slot("oauth_refresh_token"@, text_bytes(self.oauth_refresh_token)),
            slot(
                "password_expiry_utc"@,
                match self.password_expiry_utc {
                    Some(seconds) => Some(encode_utf8(decimal(seconds))),
                    None => None,
                },
            ),
        ]
    }

    /// Whether every field that is set can be written.
    pub open spec fn is_encodable(&self) -> bool {
        written(self.slots(), 0, Seq::empty()).0 is None
    }
}

/// What writing the fields from `from` on behind `out` gives: the place of the
/// first field that cannot be written, if there is one, and what stands in the
/// output when the writing ends.
pub open spec fn written(slots: Seq<Option<(Seq<char>, Seq<u8>)>>, from: int, out: Seq<u8>) -> (
    Option<int>,
    Seq<u8>,
)
    decreases slots.len() - from,
{
    if from < 0 || from >= slots.len() {
        (None, out)
    } else {
        match slots[from] {
            None => written(slots, from + 1, out),
            Some((key, value)) => if is_valid(key, value) {
                written(slots, from + 1, out + line_of(key, value))
            } else {
                (Some(from), out)
            },
        }
    }
}

/// Where the writing ends does not depend on what stood in the output before, and
/// what is written is put behind it.
pub proof fn lemma_written_appends(
    slots: Seq<Option<(Seq<char>, Seq<u8>)>>,
    from: int,
    out: Seq<u8>,
)
    ensures
        written(slots, from, out).0 == written(slots, from, Seq::empty()).0,
        written(slots, from, out).1 == out + written(slots, from, Seq::empty()).1,
    decreases slots.len() - from,
{
    if 0 <= from < slots.len() {
        match slots[from] {
            None => {
                lemma_written_appends(slots, from + 1, out);
            },
            Some((key, value)) => {
                if is_valid(key, value) {
                    lemma_written_appends(slots, from + 1, out + line_of(key, value));
                    lemma_written_appends(slots, from + 1, Seq::empty() + line_of(key, value));
                    let tail = written(slots, from + 1, Seq::empty()).1;
                    assert(out + line_of(key, value) + tail =~= out + (Seq::empty() + line_of(
                        key,
                        value,
                    ) + tail));
                } else {
                    assert(out + Seq::<u8>::empty() =~= out);
                }
            },
        }
    } else {
        assert(out + Seq::<u8>::empty() =~= out);
    }
}

/// Checks that `key` and `value` can stand in a line.
pub fn validate(key: &str, value: &[u8]) -> (r: Result<(), Error>)
    ensures
        r is Ok == is_valid(key@, value@),
        r matches Err(Error::Encoding { key: k, value: v }) ==> k@ == key@ && v@ == value@,
{
    let key_bytes = key.as_bytes();
    if contains_byte(key_bytes, NUL) || contains_byte(key_bytes, NEWLINE) || contains_byte(value, NUL)
        || contains_byte(value, NEWLINE) {
        return Err(Error::Encoding { key: key.to_owned(), value: crate::bytes::to_vec(value) });
    }
    Ok(())
}

/// Writes the line of `key` and `value` behind `out`, if they can stand in one.
fn write_key(out: &mut Vec<u8>, key: &str, value: &[u8]) -> (r: Result<(), Error>)
    ensures
        r is Ok == is_valid(key@, value@),
        r is Ok ==> final(out)@ == old(out)@ + line_of(key@, value@),
        r is Err ==> final(out)@ == old(out)@,
        r matches Err(Error::Encoding { key: k, value: v }) ==> k@ == key@ && v@ == value@,
{
    validate(key, value)?;
    out.extend_from_slice(key.as_bytes());
    out.push(EQUALS);
    out.extend_from_slice(value);
    out.push(NEWLINE);
    assert(out@ =~= old(out)@ + line_of(key@, value@));
    Ok(())
}

/// Writes the line of `key` and `value` behind `out`, if there is a value.
fn write_slot(out: &mut Vec<u8>, key: &str, value: Option<&[u8]>) -> (r: Result<(), Error>)
    ensures
        match value {
            Some(value) => {
                &&& r is Ok == is_valid(key@, value@)
                &&& r is Ok ==> final(out)@ == old(out)@ + line_of(key@, value@)
                &&& r is Err ==> final(out)@ == old(out)@
                &&& r matches Err(Error::Encoding { key: k, value: v }) ==> k@ == key@ && v@ == value@
            },
            None => r is Ok && final(out)@ == old(out)@,
        },
{
    match value {
        Some(value) => write_key(out, key, value),
        None => Ok(()),
    }
}

/// The bytes of a text that may be missing.
fn bytes_of(text: &Option<String>) -> (r: Option<&[u8]>)
    ensures
        match *text {
            Some(text) => r matches Some(bytes) && bytes@ == encode_utf8(text@),
            None => r is None,
        },
{
    match text {
        Some(text) => Some(text.as_str().as_bytes()),
        None => None,
    }
}

/// Bytes that may be missing, as a slice.
fn slice_of(bytes: &Option<Vec<u8>>) -> (r: Option<&[u8]>)
    ensures
        match *bytes {
            Some(bytes) => r matches Some(slice) && slice@ == bytes@,
            None => r is None,
        },
{
    match bytes {
        Some(bytes) => Some(bytes.as_slice()),
        None => None,
    }
}

impl Context {
    /// Writes the fields that are set behind `out`, one line each, in such a way that
    /// `from_bytes` can read them again. Whether the helper asked to quit is not
    /// written. The first field that cannot be written is returned as an error, with
    /// the fields before it written.
    pub fn write_to(&self, out: &mut Vec<u8>) -> (r: Result<(), Error>)
        ensures
            final(out)@ == written(self.slots(), 0, old(out)@).1,
            match written(self.slots(), 0, old(out)@).0 {
                Some(at) => r matches Err(Error::Encoding { key, value }) && Some((key@, value@))
                    == self.slots()[at],
                None => r is Ok,
            },
    {
        let ghost slots = self.slots();
        let ghost start = out@;
        proof {
            assert(written(slots, 8, out@) == (None::<int>, out@));
        }
        let first = write_slot(out, "url", slice_of(&self.url));
        if first.is_err() {
            return first;
        }
        assert(written(slots, 0, start) == written(slots, 1, out@));
        let ghost at1 = out@;
        let second = write_slot(out, "path", slice_of(&self.path));
        if second.is_err() {
            return second;
        }
        assert(written(slots, 1, at1) == written(slots, 2, out@));
        let ghost at2 = out@;
        let third = write_slot(out, "protocol", bytes_of(&self.protocol));
        if third.is_err() {
            return third;
        }
        assert(written(slots, 2, at2) == written(slots, 3, out@));
        let ghost at3 = out@;
        let fourth = write_slot(out, "host", bytes_of(&self.host));
        if fourth.is_err() {
            return fourth;
        }
        assert(written(slots, 3, at3) == written(slots, 4, out@));
        let ghost at4 = out@;
        let fifth = write_slot(out, "username", bytes_of(&self.username));
        if fifth.is_err() {
            return fifth;
        }
        assert(written(slots, 4, at4) == written(slots, 5, out@));
        let ghost at5 = out@;
        let sixth = write_slot(out, "password", bytes_of(&self.password));
        if sixth.is_err() {
            return sixth;
        }
        assert(written(slots, 5, at5) == written(slots, 6, out@));
        let ghost at6 = out@;
        let seventh = write_slot(out, "oauth_refresh_token", bytes_of(&self.oauth_refresh_token));
        if seventh.is_err() {
            return seventh;
        }
        assert(written(slots, 6, at6) == written(slots, 7, out@));
        let ghost at7 = out@;
        match self.password_expiry_utc {
            Some(seconds) => {
                let text = i64_to_string(seconds);
                let last = write_key(out, "password_expiry_utc", text.as_str().as_bytes());
                if last.is_err() {
                    return last;
                }
            },
            None => {},
        }
        assert(written(slots, 7, at7) == written(slots, 8, out@));
        Ok(())
    }

    /// The lines of the fields that are set, as `write_to` writes them.
    pub fn to_bstring(&self) -> (r: Vec<u8>)
        requires
            self.is_encodable(),
        ensures
            r@ == written(self.slots(), 0, Seq::empty()).1,
    {
        let mut buf: Vec<u8> = Vec::new();
        let _ = self.write_to(&mut buf);
        buf
    }
}

} // verus!
