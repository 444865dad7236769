//! What a credential helper is told and what it tells: the fields of one exchange,
//! written as lines of `key=value`.

use vstd::prelude::*;


pub mod decode;
pub mod encode;

verus! {

/// The fields of one exchange with a credential helper.
#[derive(Clone, Debug, PartialEq, Eq, Default)]
pub struct Context {
    /// The protocol over which the credential is used, like `https`.
    pub protocol: Option<String>,
    /// The host, with a port where one is given.
    pub host: Option<String>,
    /// The path of the repository on the host.
    pub path: Option<Vec<u8>>,
    /// The name of the user.
    pub username: Option<String>,
    /// The password.
    pub password: Option<String>,
    /// A token with which a new password can be had.
    pub oauth_refresh_token: Option<String>,
    /// When the password expires, in seconds since 1970.
    pub password_expiry_utc: Option<i64>,
    /// The URL that the other fields are parts of.
    pub url: Option<Vec<u8>>,
    /// Whether the helper asked that no further helper be consulted.
    pub quit: Option<bool>,
}

/// Why a key and a value cannot be written.
#[derive(Clone, Debug, PartialEq, Eq)]
pub enum Error {
    /// The key or the value holds a line feed or a null byte.
    Encoding {
        /// The key.
        key: String,
        /// The value.
        value: Vec<u8>,
    },
}

} // verus!
