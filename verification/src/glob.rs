//! Glob patterns as plain data, and the three operations on them that `gix_glob`
//! performs: parsing a line into a pattern, matching a pattern against a path, and
//! cutting the base of a pattern list off a path.
//!
//! What a parse or a match yields is not spelled out here. It is named, as a function
//! of the bytes that go in, and the rest of the crate reasons about those names.

use vstd::prelude::*;
use crate::bytes::{eq_ignore_case, last_index_of, SLASH};

verus! {

/// Mode bit: the pattern holds no slash once a trailing one is removed.
pub const NO_SUB_DIR: u32 = 1;

/// Mode bit: the pattern is a `*` followed by literal text.
pub const ENDS_WITH: u32 = 2;

/// Mode bit: the pattern matches directories only.
pub const MUST_BE_DIR: u32 = 4;

/// Mode bit: a match of the pattern is to be negated by the caller.
pub const NEGATIVE: u32 = 8;

/// Mode bit: the pattern began with a slash and matches from the root only.
pub const ABSOLUTE: u32 = 16;

/// Whether the case of ASCII letters matters when paths are compared.
#[derive(Clone, Copy, Debug, PartialEq, Eq, Hash, PartialOrd, Ord, Default)]
pub enum Case {
    /// Letters match only themselves.
    #[default]
    Sensitive,
    /// Upper and lower case ASCII letters match each other.
    Fold,
}

impl Case {
    /// Whether this is `Case::Fold`.
    pub open spec fn folds(self) -> bool {
        self is Fold
    }
}

/// A glob pattern: its text, the mode bits found while parsing it, and the position
/// of the first byte of `text` at which literal comparison has to stop.
#[derive(Clone, Debug, PartialEq, Eq, Hash, PartialOrd, Ord)]
pub struct Pattern {
    /// The bytes of the pattern, without the markers that became mode bits.
    pub text: Vec<u8>,
    /// A combination of `NO_SUB_DIR`, `ENDS_WITH`, `MUST_BE_DIR`, `NEGATIVE` and `ABSOLUTE`.
    pub mode: u32,
    /// The index in `text` of the first `*`, `?`, `[` or `\`, if there is one.
    pub first_wildcard_pos: Option<usize>,
}

/// A pattern as a mathematical value.
pub struct PatternView {
    /// The bytes of the pattern.
    pub text: Seq<u8>,
    /// The mode bits.
    pub mode: u32,
    /// The index in `text` of the first byte that literal comparison cannot pass.
    pub first_wildcard_pos: Option<usize>,
}

impl View for Pattern {
    type V = PatternView;

    open spec fn view(&self) -> PatternView {
        PatternView { text: self.text@, mode: self.mode, first_wildcard_pos: self.first_wildcard_pos }
    }
}

impl PatternView {
    /// The wildcard position, when there is one, lies inside the text.
    pub open spec fn wf(self) -> bool {
        self.first_wildcard_pos matches Some(pos) ==> pos < self.text.len()
    }

    /// Whether this pattern matches `path`, a path relative to the directory that
    /// the pattern belongs to, with `is_dir` telling whether `path` is a directory.
    pub open spec fn matches(self, path: Seq<u8>, is_dir: Option<bool>, case: Case) -> bool {
        path_matches(
            self.text,
            self.mode,
            self.first_wildcard_pos,
            path,
            basename_pos(path),
            is_dir,
            case.folds(),
        )
    }
}

impl Pattern {
    /// The wildcard position, when there is one, lies inside the text.
    pub open spec fn wf(&self) -> bool {
        self@.wf()
    }
}

/// The pattern that `gix_glob` reads out of `text` when a leading `!` negates, if it
/// reads one: its text, mode bits and wildcard position.
pub uninterp spec fn parsed(text: Seq<u8>) -> Option<(Seq<u8>, u32, Option<usize>)>;

/// The pattern that `gix_glob` reads out of `text` when a leading `!` is taken
/// literally, if it reads one.
pub uninterp spec fn parsed_without_negation(text: Seq<u8>) -> Option<(Seq<u8>, u32, Option<usize>)>;

/// Whether `gix_glob` finds the pattern made of `text`, `mode` and
/// `first_wildcard_pos` to match the relative `path`, whose last component starts at
/// `basename_start_pos`, with wildcards that do not reach across a slash.
pub uninterp spec fn path_matches(
    text: Seq<u8>,
    mode: u32,
    first_wildcard_pos: Option<usize>,
    path: Seq<u8>,
    basename_start_pos: Option<usize>,
    is_dir: Option<bool>,
    fold: bool,
) -> bool;

/// A named parse result as a pattern value.
pub open spec fn as_view(parts: (Seq<u8>, u32, Option<usize>)) -> PatternView {
    PatternView { text: parts.0, mode: parts.1, first_wildcard_pos: parts.2 }
}

/// Where the last component of `path` starts: one past its last slash, or nothing
/// where `path` holds no slash.
pub open spec fn basename_pos(path: Seq<u8>) -> Option<usize> {
    match last_index_of(path, SLASH) {
        Some(i) => Some((i + 1) as usize),
        None => None,
    }
}

/// Whether `path` begins with `base`, compared as `case` says.
pub open spec fn starts_with_base(base: Seq<u8>, path: Seq<u8>, case: Case) -> bool {
    &&& base.len() <= path.len()
    &&& if case.folds() {
        eq_ignore_case(path.subrange(0, base.len() as int), base)
    } else {
        path.subrange(0, base.len() as int) == base
    }
}

/// A path may be matched if it does not begin with a slash.
pub open spec fn is_relative(path: Seq<u8>) -> bool {
    path.len() > 0 ==> path[0] != SLASH
}

/// Calls `gix_glob::Pattern::from_bytes` and copies the three fields of its result.
/// The contract names the result and claims two things of it: an empty text gives
/// no pattern, and the wildcard position lies inside the text, as it is an index
/// found by searching that text.
#[verifier::external_body]
pub(crate) fn parse_pattern(text: &[u8]) -> (r: Option<Pattern>)
    ensures
        r is Some == parsed(text@) is Some,
        text@.len() == 0 ==> r is None,
        r matches Some(p) ==> p@ == as_view(parsed(text@).unwrap()) && p.wf(),
{
    gix_glob::Pattern::from_bytes(text).map(|p| Pattern {
        text: p.text.into(),
        mode: p.mode.bits(),
        first_wildcard_pos: p.first_wildcard_pos,
    })
}

/// Calls `gix_glob::Pattern::from_bytes_without_negation` and copies the three fields
/// of its result. The contract names the result and claims two things of it: an
/// empty text gives no pattern, and the wildcard position lies inside the text.
#[verifier::external_body]
pub(crate) fn parse_pattern_without_negation(text: &[u8]) -> (r: Option<Pattern>)
    ensures
        r is Some == parsed_without_negation(text@) is Some,
        text@.len() == 0 ==> r is None,
        r matches Some(p) ==> p@ == as_view(parsed_without_negation(text@).unwrap()) && p.wf(),
{
    gix_glob::Pattern::from_bytes_without_negation(text).map(|p| Pattern {
        text: p.text.into(),
        mode: p.mode.bits(),
        first_wildcard_pos: p.first_wildcard_pos,
    })
}

/// Calls `gix_glob::Pattern::matches_repo_relative_path` on a pattern built from
/// the fields of `pattern`, with wildcards that do not match a slash. The contract
/// names the result. It leaves out what the outside function refuses: a path that
/// begins with a slash, a basename position other than the one past the last
/// slash, and a wildcard position outside the text.
#[verifier::external_body]
pub(crate) fn matches_repo_relative_path(
    pattern: &Pattern,
    path: &[u8],
    basename_start_pos: Option<usize>,
    is_dir: Option<bool>,
    case: Case,
) -> (r: bool)
    requires
        pattern.wf(),
        is_relative(path@),
        basename_start_pos == basename_pos(path@),
    ensures
        r == path_matches(
            pattern.text@,
            pattern.mode,
            pattern.first_wildcard_pos,
            path@,
            basename_start_pos,
            is_dir,
            case.folds(),
        ),
{
    let glob = gix_glob::Pattern {
        text: pattern.text.as_slice().into(),
        mode: gix_glob::pattern::Mode::from_bits_retain(pattern.mode),
        first_wildcard_pos: pattern.first_wildcard_pos,
    };
    let case = match case {
        Case::Sensitive => gix_glob::pattern::Case::Sensitive,
        Case::Fold => gix_glob::pattern::Case::Fold,
    };
    let mode = gix_glob::wildmatch::Mode::NO_MATCH_SLASH_LITERAL;
    glob.matches_repo_relative_path(path.into(), basename_start_pos, is_dir, case, mode)
}

/// Calls `gix_glob::search::pattern::strip_base_handle_recompute_basename_pos`.
/// That function yields nothing unless `path` begins with `base`; else it yields the
/// rest of `path` and the basename position moved back by the length of `base`,
/// which is dropped where it becomes zero. The contract states this. It leaves out
/// a basename position that lies inside `base`, on which the subtraction fails.
#[verifier::external_body]
pub(crate) fn strip_base<'a>(
    base: &[u8],
    path: &'a [u8],
    basename_start_pos: Option<usize>,
    case: Case,
) -> (r: Option<(&'a [u8], Option<usize>)>)
    requires
        starts_with_base(base@, path@, case) ==> (basename_start_pos matches Some(pos) ==> pos
            >= base.len()),
    ensures
        r is Some == starts_with_base(base@, path@, case),
        r matches Some((rest, pos)) ==> {
            &&& rest@ == path@.subrange(base.len() as int, path.len() as int)
            &&& pos == match basename_start_pos {
                Some(p) if p != base.len() => Some((p - base.len()) as usize),
                _ => None,
            }
        },
{
    let case = match case {
        Case::Sensitive => gix_glob::pattern::Case::Sensitive,
        Case::Fold => gix_glob::pattern::Case::Fold,
    };
    gix_glob::search::pattern::strip_base_handle_recompute_basename_pos(
        base.into(),
        path.into(),
        basename_start_pos,
        case,
    ).map(|(rest, pos)| (&**rest, pos))
}

} // verus!
