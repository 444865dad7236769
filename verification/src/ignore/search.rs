//! The search for the pattern that governs a path.
//!
//! Lists are asked from the one added last to the one added first, and the patterns
//! of a list from its last line to its first. The first pattern that matches governs.
//! A list with a base takes part only for paths below that base, and matches its
//! patterns against what follows the base.

use std::path::PathBuf;
use vstd::prelude::*;
use crate::bytes::{last_index_of, lemma_last_index_of, lemma_last_index_of_unique, lower, rfind_byte, SLASH};
use crate::glob::{
    basename_pos, is_relative, matches_repo_relative_path, starts_with_base, strip_base, Case,
    Pattern,
};
use crate::ignore::{Kind, Search};

verus! {

/// How the lines of an ignore file are read.
#[derive(Clone, Copy, Debug, PartialEq, Eq, Hash, PartialOrd, Ord, Default)]
pub struct Ignore {
    /// Whether a line that begins with `$` gives a precious pattern. If not, the `$`
    /// is part of the pattern like any other byte.
    pub support_precious: bool,
}

/// A pattern of a list, with what matching it means and where it stood.
#[derive(Clone, Debug, PartialEq, Eq, Hash, PartialOrd, Ord)]
pub struct Mapping {
    /// The pattern itself.
    pub pattern: Pattern,
    /// What the pattern says of a path that it matches.
    pub value: Kind,
    /// The number of the line that held the pattern, or its place among the patterns
    /// that were given directly, counted from one.
    pub sequence_number: usize,
}

/// The patterns of one source in the order of its lines.
#[derive(Clone, Debug, PartialEq, Eq, Hash, PartialOrd, Ord, Default)]
pub struct List {
    /// The patterns in the order in which the source held them.
    pub patterns: Vec<Mapping>,
    /// The file that the patterns were read from, if they were read from one.
    pub source: Option<PathBuf>,
    /// The directory that the patterns are relative to, with slashes only and one at
    /// its end, or nothing where they are relative to the root.
    pub base: Option<Vec<u8>>,
}

/// The pattern that governs a path, and where it came from.
#[derive(Clone, Debug, PartialEq, Eq, Hash, PartialOrd, Ord)]
pub struct Match<'a> {
    /// The pattern that matched.
    pub pattern: &'a Pattern,
    /// The file that held the pattern, if it came from one.
    pub source: Option<&'a PathBuf>,
    /// What the pattern says of the path.
    pub kind: Kind,
    /// The number of the line that held the pattern, or its place among the patterns
    /// that were given directly.
    pub sequence_number: usize,
}

/// The index of the last of `patterns` that matches `path`, if one does.
pub open spec fn last_match(
    patterns: Seq<Mapping>,
    path: Seq<u8>,
    is_dir: Option<bool>,
    case: Case,
) -> Option<int>
    decreases patterns.len(),
{
    if patterns.len() == 0 {
        None
    } else if patterns.last().pattern@.matches(path, is_dir, case) {
        Some(patterns.len() - 1)
    } else {
        last_match(patterns.drop_last(), path, is_dir, case)
    }
}

/// What `last_match` means: the pattern at the index it gives matches and none
/// after it does, and it gives no index exactly if no pattern matches.
pub proof fn lemma_last_match(patterns: Seq<Mapping>, path: Seq<u8>, is_dir: Option<bool>, case: Case)
    ensures
        match last_match(patterns, path, is_dir, case) {
            Some(i) => {
                &&& 0 <= i < patterns.len()
                &&& patterns[i].pattern@.matches(path, is_dir, case)
                &&& forall|j: int|
                    i < j < patterns.len() ==> !(#[trigger] patterns[j]).pattern@.matches(
                        path,
                        is_dir,
                        case,
                    )
            },
            None => forall|j: int|
                0 <= j < patterns.len() ==> !(#[trigger] patterns[j]).pattern@.matches(
                    path,
                    is_dir,
                    case,
                ),
        },
    decreases patterns.len(),
{
    if patterns.len() > 0 && !patterns.last().pattern@.matches(path, is_dir, case) {
        let front = patterns.drop_last();
        lemma_last_match(front, path, is_dir, case);
        match last_match(front, path, is_dir, case) {
            Some(i) => {
                assert(patterns[i] == front[i]);
                assert forall|j: int| i < j < patterns.len() implies !(#[trigger] patterns[j]).pattern@.matches(
                    path,
                    is_dir,
                    case,
                ) by {
                    if j < front.len() {
                        assert(front[j] == patterns[j]);
                    }
                }
            },
            None => {
                assert forall|j: int| 0 <= j < patterns.len() implies !(#[trigger] patterns[j]).pattern@.matches(
                    path,
                    is_dir,
                    case,
                ) by {
                    if j < front.len() {
                        assert(front[j] == patterns[j]);
                    }
                }
            },
        }
    }
}

impl List {
    /// Every pattern has its wildcard position inside its text, and a base is not
    /// empty and ends with a slash.
    pub open spec fn wf(&self) -> bool {
        &&& forall|i: int| 0 <= i < self.patterns@.len() ==> (#[trigger] self.patterns@[i]).pattern.wf()
        &&& self.base matches Some(base) ==> base@.len() > 0 && base@.last() == SLASH
    }

    /// Sequence numbers grow from each pattern to the next.
    pub open spec fn ordered(&self) -> bool {
        forall|i: int, j: int|
            0 <= i < j < self.patterns@.len() ==> (#[trigger] self.patterns@[i]).sequence_number < (
            #[trigger] self.patterns@[j]).sequence_number
    }

    /// Whether `path` lies below the base of this list. A list without a base takes
    /// every path.
    pub open spec fn covers(&self, path: Seq<u8>, case: Case) -> bool {
        self.base matches Some(base) ==> starts_with_base(base@, path, case)
    }

    /// `path` as the patterns of this list see it: without the base.
    pub open spec fn relative(&self, path: Seq<u8>) -> Seq<u8> {
        match self.base {
            Some(base) => path.subrange(base@.len() as int, path.len() as int),
            None => path,
        }
    }

    /// Whether this list can be asked about `path`: what it would match its patterns
    /// against does not begin with a slash.
    pub open spec fn admits(&self, path: Seq<u8>, case: Case) -> bool {
        self.covers(path, case) ==> is_relative(self.relative(path))
    }

    /// The index of the pattern of this list that governs `path`, if one does: the
    /// last that matches, provided that `path` lies below the base.
    pub open spec fn verdict(&self, path: Seq<u8>, is_dir: Option<bool>, case: Case) -> Option<int> {
        if self.covers(path, case) {
            last_match(self.patterns@, self.relative(path), is_dir, case)
        } else {
            None
        }
    }

    /// The match that tells of the pattern at `index`.
    pub open spec fn match_at(&self, index: int) -> Match<'_> {
        Match {
            pattern: &self.patterns@[index].pattern,
            source: match self.source {
                Some(source) => Some(&source),
                None => None,
            },
            kind: self.patterns@[index].value,
            sequence_number: self.patterns@[index].sequence_number,
        }
    }
}

impl List {
    /// Whether the list is well-formed.
    pub fn is_wf(&self) -> (r: bool)
        ensures
            r == self.wf(),
    {
        match &self.base {
            Some(base) => {
                if base.len() == 0 || base[base.len() - 1] != SLASH {
                    return false;
                }
            },
            None => {},
        }
        let mut i: usize = 0;
        while i < self.patterns.len()
            invariant
                i <= self.patterns@.len(),
                forall|k: int| 0 <= k < i ==> (#[trigger] self.patterns@[k]).pattern.wf(),
            decreases self.patterns@.len() - i,
        {
            let pattern = &self.patterns[i].pattern;
            match pattern.first_wildcard_pos {
                Some(pos) => {
                    if pos >= pattern.text.len() {
                        return false;
                    }
                },
                None => {},
            }
            i += 1;
        }
        true
    }

    /// Whether this list can be asked about `path`.
    pub fn accepts(&self, path: &[u8], case: Case) -> (r: bool)
        ensures
            r == self.admits(path@, case),
    {
        let rest: &[u8] = match &self.base {
            Some(base) => match strip_base(base.as_slice(), path, None, case) {
                Some((rest, _)) => rest,
                None => {
                    return true;
                },
            },
            None => path,
        };
        rest.len() == 0 || rest[0] != SLASH
    }
}

/// Where the last component of `path` starts: one past its last slash, or zero where
/// `path` holds no slash.
pub open spec fn basename_start(path: Seq<u8>) -> int {
    match last_index_of(path, SLASH) {
        Some(i) => i + 1,
        None => 0,
    }
}

/// Below a base that ends with a slash, the last component of a path starts where
/// it starts in what follows the base, moved by the length of the base.
proof fn lemma_basename_below_base(base: Seq<u8>, path: Seq<u8>, case: Case)
    requires
        base.len() > 0,
        base.last() == SLASH,
        starts_with_base(base, path, case),
        path.len() <= usize::MAX,
    ensures
        basename_pos(path) matches Some(pos) && pos >= base.len() && basename_pos(
            path.subrange(base.len() as int, path.len() as int),
        ) == (if pos != base.len() {
            Some((pos - base.len()) as usize)
        } else {
            None
        }),
{
    let n = base.len() as int;
    let rest = path.subrange(n, path.len() as int);
    assert(path.subrange(0, n)[n - 1] == path[n - 1]);
    assert(lower(path[n - 1]) == lower(base[n - 1]));
    assert(path[n - 1] == SLASH);
    lemma_last_index_of(path, SLASH);
    lemma_last_index_of(rest, SLASH);
    let i = last_index_of(path, SLASH).unwrap();
    assert(i >= n - 1);
    if i == n - 1 {
        if last_index_of(rest, SLASH) is Some {
            let k = last_index_of(rest, SLASH).unwrap();
            assert(rest[k] == path[n + k]);
        }
    } else {
        assert(rest[i - n] == path[i]);
        assert forall|j: int| i - n < j < rest.len() implies rest[j] != SLASH by {
            assert(rest[j] == path[n + j]);
        }
        lemma_last_index_of_unique(rest, SLASH, i - n);
    }
}

/// The index of the pattern of `list` that governs `relative_path`, if one does.
///
/// `basename_pos` may give the place where the last component of `relative_path`
/// starts; it is found here where it is not given. `is_dir` tells whether the path
/// is a directory, and `case` whether the case of letters matters.
pub fn pattern_idx_matching_relative_path(
    list: &List,
    relative_path: &[u8],
    basename_pos: Option<usize>,
    is_dir: Option<bool>,
    case: Case,
) -> (r: Option<usize>)
    requires
        list.wf(),
        list.admits(relative_path@, case),
        basename_pos matches Some(pos) ==> pos == basename_start(relative_path@),
    ensures
        r is Some == list.verdict(relative_path@, is_dir, case) is Some,
        r matches Some(i) ==> list.verdict(relative_path@, is_dir, case) == Some(i as int),
{
    let len = relative_path.len();
    let found: Option<usize> = match basename_pos {
        Some(pos) => if pos == 0 {
            None
        } else {
            Some(pos)
        },
        None => match rfind_byte(relative_path, SLASH) {
            Some(i) => Some(i + 1),
            None => None,
        },
    };
    proof {
        lemma_last_index_of(relative_path@, SLASH);
    }
    let (path, pos): (&[u8], Option<usize>) = match &list.base {
        Some(base) => {
            proof {
                assert(len == relative_path@.len());
                if starts_with_base(base@, relative_path@, case) {
                    lemma_basename_below_base(base@, relative_path@, case);
                }
            }
            match strip_base(base.as_slice(), relative_path, found, case) {
                Some(stripped) => stripped,
                None => {
                    return None;
                },
            }
        },
        None => (relative_path, found),
    };
    let mut i: usize = list.patterns.len();
    while i > 0
        invariant
            i <= list.patterns@.len(),
            list.wf(),
            list.covers(relative_path@, case),
            path@ == list.relative(relative_path@),
            is_relative(path@),
            pos == crate::glob::basename_pos(path@),
            forall|j: int|
                i <= j < list.patterns@.len() ==> !(#[trigger] list.patterns@[j]).pattern@.matches(
                    path@,
                    is_dir,
                    case,
                ),
        decreases i,
    {
        i -= 1;
        if matches_repo_relative_path(&list.patterns[i].pattern, path, pos, is_dir, case) {
            proof {
                lemma_last_match(list.patterns@, path@, is_dir, case);
            }
            return Some(i);
        }
    }
    proof {
        lemma_last_match(list.patterns@, path@, is_dir, case);
    }
    None
}

/// The pattern of `list` that governs `relative_path`, with where it came from, if
/// one does.
///
/// `basename_pos` may give the place where the last component of `relative_path`
/// starts; it is found here where it is not given. `is_dir` tells whether the path
/// is a directory, and `case` whether the case of letters matters.
pub fn pattern_matching_relative_path<'a>(
    list: &'a List,
    relative_path: &[u8],
    basename_pos: Option<usize>,
    is_dir: Option<bool>,
    case: Case,
) -> (r: Option<Match<'a>>)
    requires
        list.wf(),
        list.admits(relative_path@, case),
        basename_pos matches Some(pos) ==> pos == basename_start(relative_path@),
    ensures
        r == match list.verdict(relative_path@, is_dir, case) {
            Some(i) => Some(list.match_at(i)),
            None => None,
        },
{
    match pattern_idx_matching_relative_path(list, relative_path, basename_pos, is_dir, case) {
        Some(i) => {
            proof {
                lemma_last_match(list.patterns@, list.relative(relative_path@), is_dir, case);
            }
            let mapping = &list.patterns[i];
            Some(
                Match {
                    pattern: &mapping.pattern,
                    source: list.source.as_ref(),
                    kind: mapping.value,
                    sequence_number: mapping.sequence_number,
                },
            )
        },
        None => None,
    }
}

/// The list and the pattern in it that govern `path`, if any do: the verdict of the
/// last of `lists` that has one.
pub open spec fn governing(
    lists: Seq<List>,
    path: Seq<u8>,
    is_dir: Option<bool>,
    case: Case,
) -> Option<(int, int)>
    decreases lists.len(),
{
    if lists.len() == 0 {
        None
    } else {
        match lists.last().verdict(path, is_dir, case) {
            Some(index) => Some((lists.len() - 1, index)),
            None => governing(lists.drop_last(), path, is_dir, case),
        }
    }
}

/// What `governing` means: the list it names has the verdict it names and no later
/// list has one, and it names nothing exactly if no list has a verdict.
pub proof fn lemma_governing(lists: Seq<List>, path: Seq<u8>, is_dir: Option<bool>, case: Case)
    ensures
        match governing(lists, path, is_dir, case) {
            Some((at, index)) => {
                &&& 0 <= at < lists.len()
                &&& lists[at].verdict(path, is_dir, case) == Some(index)
                &&& forall|j: int|
                    at < j < lists.len() ==> (#[trigger] lists[j]).verdict(path, is_dir, case) is None
            },
            None => forall|j: int|
                0 <= j < lists.len() ==> (#[trigger] lists[j]).verdict(path, is_dir, case) is None,
        },
    decreases lists.len(),
{
    if lists.len() > 0 && lists.last().verdict(path, is_dir, case) is None {
        let front = lists.drop_last();
        lemma_governing(front, path, is_dir, case);
        match governing(front, path, is_dir, case) {
            Some((at, index)) => {
                assert(lists[at] == front[at]);
                assert forall|j: int| at < j < lists.len() implies (#[trigger] lists[j]).verdict(
                    path,
                    is_dir,
                    case,
                ) is None by {
                    if j < front.len() {
                        assert(front[j] == lists[j]);
                    }
                }
            },
            None => {
                assert forall|j: int| 0 <= j < lists.len() implies (#[trigger] lists[j]).verdict(
                    path,
                    is_dir,
                    case,
                ) is None by {
                    if j < front.len() {
                        assert(front[j] == lists[j]);
                    }
                }
            },
        }
    }
}

impl Search {
    /// Every list is well-formed.
    pub open spec fn wf(&self) -> bool {
        forall|i: int| 0 <= i < self.patterns@.len() ==> (#[trigger] self.patterns@[i]).wf()
    }

    /// Whether this search can be asked about `path`: every list can.
    pub open spec fn admits(&self, path: Seq<u8>, case: Case) -> bool {
        forall|i: int| 0 <= i < self.patterns@.len() ==> (#[trigger] self.patterns@[i]).admits(path, case)
    }

    /// The list and the pattern in it that govern `path`, if any do.
    pub open spec fn verdict(&self, path: Seq<u8>, is_dir: Option<bool>, case: Case) -> Option<(int, int)> {
        governing(self.patterns@, path, is_dir, case)
    }

    /// The match that tells of the pattern at `at`, a list and a place in it.
    pub open spec fn match_at(&self, at: (int, int)) -> Match<'_> {
        self.patterns@[at.0].match_at(at.1)
    }

    /// Whether this search is well-formed and can be asked about `path`.
    pub fn accepts(&self, path: &[u8], case: Case) -> (r: bool)
        ensures
            r == (self.wf() && self.admits(path@, case)),
    {
        let mut i: usize = 0;
        while i < self.patterns.len()
            invariant
                i <= self.patterns@.len(),
                forall|k: int| 0 <= k < i ==> (#[trigger] self.patterns@[k]).wf(),
                forall|k: int| 0 <= k < i ==> (#[trigger] self.patterns@[k]).admits(path@, case),
            decreases self.patterns@.len() - i,
        {
            if !self.patterns[i].is_wf() || !self.patterns[i].accepts(path, case) {
                return false;
            }
            i += 1;
        }
        true
    }

    /// The place of the pattern that governs `relative_path`, if one does: the index
    /// of its list and its index in that list.
    ///
    /// `is_dir` tells whether the path is a directory, and `case` whether the case of
    /// letters matters.
    pub fn pattern_idx_matching_relative_path(
        &self,
        relative_path: &[u8],
        is_dir: Option<bool>,
        case: Case,
    ) -> (r: Option<(usize, usize)>)
        requires
            self.wf(),
            self.admits(relative_path@, case),
        ensures
            r is Some == self.verdict(relative_path@, is_dir, case) is Some,
            r matches Some(at) ==> self.verdict(relative_path@, is_dir, case) == Some(
                (at.0 as int, at.1 as int),
            ),
    {
        let basename_pos: usize = match rfind_byte(relative_path, SLASH) {
            Some(i) => i + 1,
            None => 0,
        };
        let mut i: usize = self.patterns.len();
        while i > 0
            invariant
                i <= self.patterns@.len(),
                self.wf(),
                self.admits(relative_path@, case),
                basename_pos == basename_start(relative_path@),
                forall|j: int|
                    i <= j < self.patterns@.len() ==> (#[trigger] self.patterns@[j]).verdict(
                        relative_path@,
                        is_dir,
                        case,
                    ) is None,
            decreases i,
        {
            i -= 1;
            match pattern_idx_matching_relative_path(
                &self.patterns[i],
                relative_path,
                Some(basename_pos),
                is_dir,
                case,
            ) {
                Some(index) => {
                    proof {
                        lemma_governing(self.patterns@, relative_path@, is_dir, case);
                    }
                    return Some((i, index));
                },
                None => {},
            }
        }
        proof {
            lemma_governing(self.patterns@, relative_path@, is_dir, case);
        }
        None
    }

    /// The pattern that governs `relative_path`, with where it came from, if one
    /// does.
    ///
    /// `is_dir` tells whether the path is a directory, and `case` whether the case of
    /// letters matters.
    pub fn pattern_matching_relative_path(
        &self,
        relative_path: &[u8],
        is_dir: Option<bool>,
        case: Case,
    ) -> (r: Option<Match<'_>>)
        requires
            self.wf(),
            self.admits(relative_path@, case),
        ensures
            r == match self.verdict(relative_path@, is_dir, case) {
                Some(at) => Some(self.match_at(at)),
                None => None,
            },
    {
        match self.pattern_idx_matching_relative_path(relative_path, is_dir, case) {
            Some((at, index)) => {
                proof {
                    lemma_governing(self.patterns@, relative_path@, is_dir, case);
                    lemma_last_match(
                        self.patterns@[at as int].patterns@,
                        self.patterns@[at as int].relative(relative_path@),
                        is_dir,
                        case,
                    );
                }
                let list = &self.patterns[at];
                let mapping = &list.patterns[index];
                Some(
                    Match {
                        pattern: &mapping.pattern,
                        source: list.source.as_ref(),
                        kind: mapping.value,
                        sequence_number: mapping.sequence_number,
                    },
                )
            },
            None => None,
        }
    }
}

} // verus!
