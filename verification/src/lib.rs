//! Building blocks of a git implementation whose behaviour is stated in contracts
//! and proved: the search for the ignore pattern that governs a path, access to the
//! events of a configuration section, the credential helper protocol, names of
//! remotes and the bookkeeping of a breadth-first walk over trees.

pub mod bytes;
pub mod config;
pub mod credentials;
pub mod glob;
pub mod ignore;
pub mod outside;
pub mod remote;
pub mod text;
pub mod traverse;

