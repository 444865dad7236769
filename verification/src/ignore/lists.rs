//! Making lists of patterns and putting them into a search.

use std::path::PathBuf;
use vstd::prelude::*;
use crate::bytes::{lemma_lines_len, lines, SLASH};
use crate::glob::PatternView;
use crate::ignore::parse::{entries, entries_view, lemma_entries_numbered, parse};
use crate::ignore::search::{Ignore, List, Mapping};
use crate::ignore::{Kind, Search};

verus! {

/// Patterns of a list as mathematical values: each pattern with its sequence number
/// and kind.
pub open spec fn mapping_views(patterns: Seq<Mapping>) -> Seq<(PatternView, usize, Kind)> {
    patterns.map_values(|m: Mapping| (m.pattern@, m.sequence_number, m.value))
}

/// The pattern that one directly given text stands for: the first that its lines
/// give, if they give any.
pub open spec fn first_entry(text: Seq<u8>, support_precious: bool) -> Option<(PatternView, Kind)> {
    let all = entries(lines(text), support_precious);
    if all.len() > 0 {
        Some((all[0].0, all[0].2))
    } else {
        None
    }
}

/// The patterns that directly given texts stand for, each numbered by the place of
/// its text, counted from one. A text that gives no pattern leaves a gap in the
/// numbers.
pub open spec fn override_entries(texts: Seq<Vec<u8>>, support_precious: bool) -> Seq<
    (PatternView, usize, Kind),
>
    decreases texts.len(),
{
    if texts.len() == 0 {
        Seq::empty()
    } else {
        let before = override_entries(texts.drop_last(), support_precious);
        match first_entry(texts.last()@, support_precious) {
            Some((pattern, kind)) => before.push((pattern, texts.len() as usize, kind)),
            None => before,
        }
    }
}

/// The numbers of directly given patterns grow from each to the next.
pub proof fn lemma_override_entries_numbered(texts: Seq<Vec<u8>>, support_precious: bool)
    requires
        texts.len() <= usize::MAX,
    ensures
        forall|i: int|
            0 <= i < override_entries(texts, support_precious).len() ==> 1 <= (
            #[trigger] override_entries(texts, support_precious)[i]).1 <= texts.len(),
        forall|i: int, j: int|
            0 <= i < j < override_entries(texts, support_precious).len() ==> (
            #[trigger] override_entries(texts, support_precious)[i]).1 < (
            #[trigger] override_entries(texts, support_precious)[j]).1,
    decreases texts.len(),
{
    if texts.len() > 0 {
        lemma_override_entries_numbered(texts.drop_last(), support_precious);
        let before = override_entries(texts.drop_last(), support_precious);
        let now = override_entries(texts, support_precious);
        assert forall|i: int| 0 <= i < now.len() implies 1 <= (#[trigger] now[i]).1 <= texts.len() by {
            if i < before.len() {
                assert(now[i] == before[i]);
            }
        }
        assert forall|i: int, j: int| 0 <= i < j < now.len() implies (#[trigger] now[i]).1 < (
        #[trigger] now[j]).1 by {
            assert(now[i] == before[i]);
            if j < before.len() {
                assert(now[j] == before[j]);
            }
        }
    }
}

/// The base of a list whose patterns belong to the directory `dir`: `dir` with a
/// slash behind it, or nothing where no directory or an empty one is given.
pub open spec fn base_of(dir: Option<Seq<u8>>) -> Option<Seq<u8>> {
    match dir {
        Some(dir) if dir.len() > 0 => Some(dir.push(SLASH)),
        _ => None,
    }
}

/// The base of a list as a mathematical value.
pub open spec fn base_view(base: Option<Vec<u8>>) -> Option<Seq<u8>> {
    match base {
        Some(base) => Some(base@),
        None => None,
    }
}

impl Ignore {
    /// Reads the patterns out of the bytes of an ignore file, in the order of its
    /// lines, each with the number of its line.
    pub fn bytes_to_patterns(&self, bytes: &[u8], _source: &PathBuf) -> (r: Vec<Mapping>)
        ensures
            mapping_views(r@) == entries(lines(bytes@), self.support_precious),
            forall|i: int| 0 <= i < r@.len() ==> (#[trigger] r@[i]).pattern.wf(),
    {
        let parsed = parse(bytes, self.support_precious);
        let ghost all = parsed@;
        let mut out: Vec<Mapping> = Vec::new();
        for entry in it: parsed
            invariant
                it.seq() == all,
                out@.len() == it.index(),
                mapping_views(out@) == entries_view(all.subrange(0, it.index())),
                forall|i: int| 0 <= i < all.len() ==> (#[trigger] all[i]).0.wf(),
                forall|i: int| 0 <= i < out@.len() ==> (#[trigger] out@[i]).pattern.wf(),
        {
            let ghost before = out@;
            let (pattern, line, kind) = entry;
            out.push(Mapping { pattern, value: kind, sequence_number: line });
            proof {
                let k = before.len() as int;
                assert(all[k] == (pattern, line, kind));
                assert(all.subrange(0, k + 1) == all.subrange(0, k).push(all[k]));
                assert(mapping_views(out@) == mapping_views(before).push((pattern@, line, kind)));
                assert(entries_view(all.subrange(0, k + 1)) == entries_view(all.subrange(0, k)).push(
                    (pattern@, line, kind),
                ));
            }
        }
        proof {
            assert(all.subrange(0, all.len() as int) == all);
        }
        out
    }
}

impl Search {
    /// A search with the lists of the two files that apply to a whole repository: the
    /// user's file of excludes and, outranking it, the repository's own
    /// `info/exclude`. Each is given as its path and what was read from it, or not at
    /// all where there is no such file. Neither list has a base.
    pub fn from_git_dir(
        excludes_file: Option<(PathBuf, Vec<u8>)>,
        info_exclude: Option<(PathBuf, Vec<u8>)>,
        parse: Ignore,
    ) -> (r: Search)
        ensures
            r.wf(),
            r.patterns@.len() == (if excludes_file is Some {
                1int
            } else {
                0int
            }) + (if info_exclude is Some {
                1int
            } else {
                0int
            }),
            excludes_file matches Some(file) ==> {
                &&& mapping_views(r.patterns@[0].patterns@) == entries(
                    lines(file.1@),
                    parse.support_precious,
                )
                &&& r.patterns@[0].source == Some(file.0)
                &&& r.patterns@[0].base is None
                &&& r.patterns@[0].ordered()
            },
            info_exclude matches Some(file) ==> {
                &&& mapping_views(r.patterns@.last().patterns@) == entries(
                    lines(file.1@),
                    parse.support_precious,
                )
                &&& r.patterns@.last().source == Some(file.0)
                &&& r.patterns@.last().base is None
                &&& r.patterns@.last().ordered()
            },
    {
        let mut group = Search { patterns: Vec::new() };
        match excludes_file {
            Some((source, bytes)) => {
                group.add_patterns_buffer(bytes.as_slice(), source, None, parse);
            },
            None => {},
        }
        match info_exclude {
            Some((source, bytes)) => {
                group.add_patterns_buffer(bytes.as_slice(), source, None, parse);
            },
            None => {},
        }
        group
    }

    /// A search with one list, which holds the patterns that `patterns` stand for:
    /// of each text the first pattern that its lines give, numbered by the place of
    /// the text. The list has neither a source nor a base.
    pub fn from_overrides(patterns: Vec<Vec<u8>>, parse: Ignore) -> (r: Search)
        ensures
            r.wf(),
            r.patterns@.len() == 1,
            mapping_views(r.patterns@[0].patterns@) == override_entries(
                patterns@,
                parse.support_precious,
            ),
            r.patterns@[0].source is None,
            r.patterns@[0].base is None,
            r.patterns@[0].ordered(),
    {
        let mut out: Vec<Mapping> = Vec::new();
        let mut i: usize = 0;
        while i < patterns.len()
            invariant
                i <= patterns@.len(),
                mapping_views(out@) == override_entries(
                    patterns@.subrange(0, i as int),
                    parse.support_precious,
                ),
                forall|k: int| 0 <= k < out@.len() ==> (#[trigger] out@[k]).pattern.wf(),
            decreases patterns@.len() - i,
        {
            let ghost before = out@;
            let mut parsed = crate::ignore::parse::parse(patterns[i].as_slice(), parse.support_precious);
            proof {
                assert(patterns@.subrange(0, i + 1).drop_last() == patterns@.subrange(0, i as int));
                assert(patterns@.subrange(0, i + 1).last() == patterns@[i as int]);
            }
            if parsed.len() > 0 {
                let ghost all = parsed@;
                let (pattern, _line, kind) = parsed.swap_remove(0);
                assert(entries_view(all)[0] == (pattern@, _line, kind));
                out.push(Mapping { pattern, value: kind, sequence_number: i + 1 });
                proof {
                    assert(mapping_views(out@) == mapping_views(before).push(
                        (pattern@, (i + 1) as usize, kind),
                    ));
                }
            } else {
                assert(entries_view(parsed@).len() == 0);
            }
            i += 1;
        }
        proof {
            assert(patterns@.subrange(0, patterns@.len() as int) == patterns@);
            lemma_override_entries_numbered(patterns@, parse.support_precious);
            assert forall|a: int, b: int| 0 <= a < b < out@.len() implies (#[trigger] out@[a]).sequence_number
                < (#[trigger] out@[b]).sequence_number by {
                assert(mapping_views(out@)[a].1 == out@[a].sequence_number);
                assert(mapping_views(out@)[b].1 == out@[b].sequence_number);
            }
        }
        let mut lists: Vec<List> = Vec::new();
        lists.push(List { patterns: out, source: None, base: None });
        Search { patterns: lists }
    }

    /// Adds a list with the patterns read from `bytes`, which outranks every list
    /// added before. `source` is the file that `bytes` came from. `base` is the
    /// directory that the patterns belong to, relative to the root, with slashes only
    /// and none at its end; without it, or where it is empty, the list applies to
    /// every path.
    pub fn add_patterns_buffer(
        &mut self,
        bytes: &[u8],
        source: PathBuf,
        base: Option<&[u8]>,
        parse: Ignore,
    )
        ensures
            final(self).patterns@.len() == old(self).patterns@.len() + 1,
            final(self).patterns@.drop_last() == old(self).patterns@,
            mapping_views(final(self).patterns@.last().patterns@) == entries(
                lines(bytes@),
                parse.support_precious,
            ),
            final(self).patterns@.last().source == Some(source),
            base_view(final(self).patterns@.last().base) == base_of(
                match base {
                    Some(dir) => Some(dir@),
                    None => None,
                },
            ),
            final(self).patterns@.last().wf(),
            final(self).patterns@.last().ordered(),
            old(self).wf() ==> final(self).wf(),
    {
        let patterns = parse.bytes_to_patterns(bytes, &source);
        let base: Option<Vec<u8>> = match base {
            Some(dir) => if dir.len() > 0 {
                let mut with_slash: Vec<u8> = Vec::new();
                with_slash.extend_from_slice(dir);
                with_slash.push(SLASH);
                Some(with_slash)
            } else {
                None
            },
            None => None,
        };
        proof {
            let len = bytes.len();
            lemma_lines_len(bytes@);
            lemma_entries_numbered(lines(bytes@), parse.support_precious);
            assert forall|a: int, b: int| 0 <= a < b < patterns@.len() implies (#[trigger] patterns@[a]).sequence_number
                < (#[trigger] patterns@[b]).sequence_number by {
                assert(mapping_views(patterns@)[a].1 == patterns@[a].sequence_number);
                assert(mapping_views(patterns@)[b].1 == patterns@[b].sequence_number);
            }
        }
        let list = List { patterns, source: Some(source), base };
        self.patterns.push(list);
        proof {
            assert(final(self).patterns@.drop_last() == old(self).patterns@);
        }
    }
}

} // verus!
