//! Reading the fields of a context from lines of `key=value`.
//!
//! The lines are read up to the first empty one. Each must hold a `=`, with a key of
//! valid UTF-8 before it, and neither key nor value may hold a null byte. A key that
//! names no field is passed over. Where a key occurs twice, the later line counts.

use vstd::prelude::*;
use vstd::utf8::{decode_utf8, encode_utf8, valid_utf8};
use crate::bytes::{
    after_first_line, eq_bytes, find_byte, first_line, index_of_from, lemma_index_of_from,
    split_line, NEWLINE,
};
use crate::credentials::encode::{is_valid, validate, EQUALS};
use crate::credentials::{Context, Error as EncodingError};
use crate::text::{parse_i64, parsed_i64, string_from_utf8};

verus! {

/// Why bytes could not be read as a context.
#[derive(Clone, Debug, PartialEq, Eq)]
pub enum Error {
    /// The value of a field that holds text is not valid UTF-8.
    IllformedUtf8InValue {
        /// The key of the field.
        key: String,
        /// The value as it stood in the line.
        value: Vec<u8>,
    },
    /// The key or the value holds a null byte.
    Encoding(EncodingError),
    /// The line holds no `=`, or its key is not valid UTF-8.
    Syntax {
        /// The line.
        line: Vec<u8>,
    },
}

/// An error as a mathematical value.
pub enum ErrorView {
    IllformedUtf8InValue { key: Seq<char>, value: Seq<u8> },
    Encoding { key: Seq<char>, value: Seq<u8> },
    Syntax { line: Seq<u8> },
}

impl View for Error {
    type V = ErrorView;

    open spec fn view(&self) -> ErrorView {
        match self {
            Error::IllformedUtf8InValue { key, value } => ErrorView::IllformedUtf8InValue {
                key: key@,
                value: value@,
            },
            Error::Encoding(EncodingError::Encoding { key, value }) => ErrorView::Encoding {
                key: key@,
                value: value@,
            },
            Error::Syntax { line } => ErrorView::Syntax { line: line@ },
        }
    }
}

/// A context as a mathematical value.
pub struct ContextView {
    pub protocol: Option<Seq<char>>,
    pub host: Option<Seq<char>>,
    pub path: Option<Seq<u8>>,
    pub username: Option<Seq<char>>,
    pub password: Option<Seq<char>>,
    pub oauth_refresh_token: Option<Seq<char>>,
    pub password_expiry_utc: Option<i64>,
    pub url: Option<Seq<u8>>,
    pub quit: Option<bool>,
}

/// A text that may be missing, as a mathematical value.
pub open spec fn text_view(text: Option<String>) -> Option<Seq<char>> {
    match text {
        Some(text) => Some(text@),
        None => None,
    }
}

/// Bytes that may be missing, as a mathematical value.
pub open spec fn bytes_view(bytes: Option<Vec<u8>>) -> Option<Seq<u8>> {
    match bytes {
        Some(bytes) => Some(bytes@),
        None => None,
    }
}

impl View for Context {
    type V = ContextView;

    open spec fn view(&self) -> ContextView {
        ContextView {
            protocol: text_view(self.protocol),
            host: text_view(self.host),
            path: bytes_view(self.path),
            username: text_view(self.username),
            password: text_view(self.password),
            oauth_refresh_token: text_view(self.oauth_refresh_token),
            password_expiry_utc: self.password_expiry_utc,
            url: bytes_view(self.url),
            quit: self.quit,
        }
    }
}

/// The context in which no field is set.
pub open spec fn empty_context() -> ContextView {
    ContextView {
        protocol: None,
        host: None,
        path: None,
        username: None,
        password: None,
        oauth_refresh_token: None,
        password_expiry_utc: None,
        url: None,
        quit: None,
    }
}

/// What `gix_config_value` reads out of `value` as a boolean, if it reads one.
pub uninterp spec fn config_boolean(value: Seq<u8>) -> Option<bool>;

/// Whether `key` is the key `name`.
pub open spec fn is_key(key: Seq<u8>, name: &str) -> bool {
    key == encode_utf8(name@)
}

/// Whether `key` names one of the fields that hold text.
pub open spec fn is_text_key(key: Seq<u8>) -> bool {
    is_key(key, "protocol") || is_key(key, "host") || is_key(key, "username") || is_key(
        key,
        "password",
    ) || is_key(key, "oauth_refresh_token")
}

/// `ctx` with the field that `key` names set to the text `value`.
pub open spec fn with_text(ctx: ContextView, key: Seq<u8>, value: Seq<char>) -> ContextView {
    if is_key(key, "protocol") {
        ContextView { protocol: Some(value), ..ctx }
    } else if is_key(key, "host") {
        ContextView { host: Some(value), ..ctx }
    } else if is_key(key, "username") {
        ContextView { username: Some(value), ..ctx }
    } else if is_key(key, "password") {
        ContextView { password: Some(value), ..ctx }
    } else {
        ContextView { oauth_refresh_token: Some(value), ..ctx }
    }
}

/// `ctx` after the field that `key` names took `value`. A field of text needs valid
/// UTF-8. The expiry date is unset by a value that is no number, and whether to
/// quit by a value that is no boolean.
pub open spec fn with_field(ctx: ContextView, key: Seq<u8>, value: Seq<u8>) -> Result<
    ContextView,
    ErrorView,
> {
    if is_text_key(key) {
        if valid_utf8(value) {
            Ok(with_text(ctx, key, decode_utf8(value)))
        } else {
            Err(ErrorView::IllformedUtf8InValue { key: decode_utf8(key), value })
        }
    } else if is_key(key, "password_expiry_utc") {
        Ok(
            ContextView {
                password_expiry_utc: if valid_utf8(value) {
                    parsed_i64(decode_utf8(value))
                } else {
                    None
                },
                ..ctx
            },
        )
    } else if is_key(key, "url") {
        Ok(ContextView { url: Some(value), ..ctx })
    } else if is_key(key, "path") {
        Ok(ContextView { path: Some(value), ..ctx })
    } else if is_key(key, "quit") {
        Ok(ContextView { quit: config_boolean(value), ..ctx })
    } else {
        Ok(ctx)
    }
}

/// `ctx` after the line `line` was read, or why the line cannot be read.
pub open spec fn with_line(ctx: ContextView, line: Seq<u8>) -> Result<ContextView, ErrorView> {
    let at = index_of_from(line, EQUALS, 0);
    let key = line.subrange(0, at);
    if at >= line.len() || !valid_utf8(key) {
        Err(ErrorView::Syntax { line })
    } else {
        let value = line.subrange(at + 1, line.len() as int);
        if !is_valid(decode_utf8(key), value) {
            Err(ErrorView::Encoding { key: decode_utf8(key), value })
        } else {
            with_field(ctx, key, value)
        }
    }
}

/// `ctx` after the lines of `rest` were read up to the first empty one, or the error
/// of the first line that cannot be read.
pub open spec fn decoded(rest: Seq<u8>, ctx: ContextView) -> Result<ContextView, ErrorView>
    decreases rest.len(),
{
    if rest.len() == 0 || first_line(rest).len() == 0 {
        Ok(ctx)
    } else {
        proof {
            lemma_index_of_from(rest, NEWLINE, 0);
        }
        match with_line(ctx, first_line(rest)) {
            Ok(next) => decoded(after_first_line(rest), next),
            Err(e) => Err(e),
        }
    }
}

/// Calls `gix_config_value::Boolean::try_from` on the bytes and keeps the boolean,
/// or nothing where the bytes are refused. The contract names the result.
#[verifier::external_body]
fn parse_boolean(value: &[u8]) -> (r: Option<bool>)
    ensures
        r == config_boolean(value@),
{
    gix_config_value::Boolean::try_from(bstr::BStr::new(value)).ok().map(|b| b.0)
}

/// Sets the field that `key` names to `value`.
fn set_field(ctx: &mut Context, key: String, value: &[u8]) -> (r: Result<(), Error>)
    requires
        valid_utf8(encode_utf8(key@)),
    ensures
        match with_field(old(ctx)@, encode_utf8(key@), value@) {
            Ok(next) => r is Ok && final(ctx)@ == next,
            Err(e) => r matches Err(found) && found@ == e,
        },
{
    let name = key.as_str().as_bytes();
    proof {
        vstd::utf8::encode_utf8_decode_utf8(key@);
    }
    let is_protocol = eq_bytes(name, "protocol".as_bytes());
    let is_host = eq_bytes(name, "host".as_bytes());
    let is_username = eq_bytes(name, "username".as_bytes());
    let is_password = eq_bytes(name, "password".as_bytes());
    let is_token = eq_bytes(name, "oauth_refresh_token".as_bytes());
    if is_protocol || is_host || is_username || is_password || is_token {
        let text = match string_from_utf8(crate::bytes::to_vec(value)) {
            Ok(text) => text,
            Err(value) => {
                return Err(Error::IllformedUtf8InValue { key, value });
            },
        };
        proof {
            vstd::utf8::encode_utf8_decode_utf8(text@);
        }
        if is_protocol {
            ctx.protocol = Some(text);
        } else if is_host {
            ctx.host = Some(text);
        } else if is_username {
            ctx.username = Some(text);
        } else if is_password {
            ctx.password = Some(text);
        } else {
            ctx.oauth_refresh_token = Some(text);
        }
    } else if eq_bytes(name, "password_expiry_utc".as_bytes()) {
        ctx.password_expiry_utc = match string_from_utf8(crate::bytes::to_vec(value)) {
            Ok(text) => {
                proof {
                    vstd::utf8::encode_utf8_decode_utf8(text@);
                }
                parse_i64(text.as_str())
            },
            Err(_) => None,
        };
    } else if eq_bytes(name, "url".as_bytes()) {
        ctx.url = Some(crate::bytes::to_vec(value));
    } else if eq_bytes(name, "path".as_bytes()) {
        ctx.path = Some(crate::bytes::to_vec(value));
    } else if eq_bytes(name, "quit".as_bytes()) {
        ctx.quit = parse_boolean(value);
    }
    Ok(())
}

/// Reads one line into `ctx`.
fn read_line(ctx: &mut Context, line: &[u8]) -> (r: Result<(), Error>)
    ensures
        match with_line(old(ctx)@, line@) {
            Ok(next) => r is Ok && final(ctx)@ == next,
            Err(e) => r matches Err(found) && found@ == e,
        },
{
    let at = find_byte(line, EQUALS);
    if at >= line.len() {
        return Err(Error::Syntax { line: crate::bytes::to_vec(line) });
    }
    let key = match string_from_utf8(crate::bytes::to_vec(vstd::slice::slice_subrange(line, 0, at))) {
        Ok(key) => key,
        Err(_) => {
            return Err(Error::Syntax { line: crate::bytes::to_vec(line) });
        },
    };
    let value = vstd::slice::slice_subrange(line, at + 1, line.len());
    proof {
        vstd::utf8::encode_utf8_decode_utf8(key@);
        vstd::utf8::encode_utf8_valid_utf8(key@);
    }
    match validate(key.as_str(), value) {
        Ok(()) => {},
        Err(e) => {
            return Err(Error::Encoding(e));
        },
    }
    set_field(ctx, key, value)
}

impl Context {
    /// Reads a context from `input`, which holds lines as `write_to` writes them.
    pub fn from_bytes(input: &[u8]) -> (r: Result<Context, Error>)
        ensures
            match decoded(input@, empty_context()) {
                Ok(ctx) => r matches Ok(found) && found@ == ctx,
                Err(e) => r matches Err(found) && found@ == e,
            },
    {
        let mut ctx = Context {
            protocol: None,
            host: None,
            path: None,
            username: None,
            password: None,
            oauth_refresh_token: None,
            password_expiry_utc: None,
            url: None,
            quit: None,
        };
        let mut rest: &[u8] = input;
        while rest.len() > 0
            invariant
                decoded(input@, empty_context()) == decoded(rest@, ctx@),
            ensures
                decoded(input@, empty_context()) == Ok::<ContextView, ErrorView>(ctx@),
            decreases rest.len(),
        {
            let (line, tail) = split_line(rest);
            if line.len() == 0 {
                break;
            }
            match read_line(&mut ctx, line) {
                Ok(()) => {},
                Err(e) => {
                    return Err(e);
                },
            }
            rest = tail;
        }
        Ok(ctx)
    }
}

} // verus!
