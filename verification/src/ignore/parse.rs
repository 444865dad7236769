//! Reading the lines of an ignore file.
//!
//! A line that is empty or begins with `#` holds no pattern. Spaces at the end of a
//! line are dropped unless a backslash stands before them. With support for precious
//! files, a line that begins with `$` gives a precious pattern made of what follows
//! the `$`; every other line gives an expendable pattern made of the whole line.

use vstd::prelude::*;
use crate::bytes::{after_first_line, first_line, lines, split_line};
use crate::glob::{
    as_view, parse_pattern, parse_pattern_without_negation, parsed, parsed_without_negation,
    Pattern, PatternView,
};
use crate::ignore::Kind;

verus! {

/// The byte that takes the special meaning from the one after it.
pub const BACKSLASH: u8 = 92;

/// The byte that is dropped from the end of a line.
pub const SPACE: u8 = 32;

/// The byte that begins a comment.
pub const HASH: u8 = 35;

/// The byte that marks a pattern as precious.
pub const DOLLAR: u8 = 36;

/// Whether a backslash takes the meaning from the byte at `i`: the byte before it is
/// a backslash that is not itself escaped.
pub open spec fn escaped(s: Seq<u8>, i: int) -> bool
    decreases i,
{
    0 < i <= s.len() && s[i - 1] == BACKSLASH && !escaped(s, i - 1)
}

/// How much of the first `n` bytes of `s` is left once unescaped spaces are taken
/// off their end.
pub open spec fn trimmed_len(s: Seq<u8>, n: int) -> int
    decreases n,
{
    if 0 < n <= s.len() && s[n - 1] == SPACE && !escaped(s, n - 1) {
        trimmed_len(s, n - 1)
    } else {
        n
    }
}

/// `s` without the unescaped spaces at its end.
pub open spec fn without_trailing_spaces(s: Seq<u8>) -> Seq<u8> {
    s.subrange(0, trimmed_len(s, s.len() as int))
}

/// What `trimmed_len` means: everything it cuts off is an unescaped space, and the
/// byte before the cut, if there is one, is not.
pub proof fn lemma_trimmed_len(s: Seq<u8>, n: int)
    requires
        0 <= n <= s.len(),
    ensures
        0 <= trimmed_len(s, n) <= n,
        forall|i: int| trimmed_len(s, n) <= i < n ==> s[i] == SPACE && !escaped(s, i),
        trimmed_len(s, n) > 0 ==> s[trimmed_len(s, n) - 1] != SPACE || escaped(
            s,
            trimmed_len(s, n) - 1,
        ),
    decreases n,
{
    if 0 < n && s[n - 1] == SPACE && !escaped(s, n - 1) {
        lemma_trimmed_len(s, n - 1);
    }
}

/// The pattern and kind that a line gives, if it gives one.
pub open spec fn line_entry(line: Seq<u8>, support_precious: bool) -> Option<(PatternView, Kind)> {
    if line.len() == 0 || line[0] == HASH {
        None
    } else if support_precious && line[0] == DOLLAR {
        match parsed_without_negation(without_trailing_spaces(line.skip(1))) {
            Some(parts) => Some((as_view(parts), Kind::Precious)),
            None => None,
        }
    } else {
        match parsed(without_trailing_spaces(line)) {
            Some(parts) => Some((as_view(parts), Kind::Expendable)),
            None => None,
        }
    }
}

/// The patterns that a sequence of lines gives, in the order of the lines, each with
/// the number of its line, counted from one, and its kind.
pub open spec fn entries(all: Seq<Seq<u8>>, support_precious: bool) -> Seq<(PatternView, usize, Kind)>
    decreases all.len(),
{
    if all.len() == 0 {
        Seq::empty()
    } else {
        let before = entries(all.drop_last(), support_precious);
        match line_entry(all.last(), support_precious) {
            Some((pattern, kind)) => before.push((pattern, all.len() as usize, kind)),
            None => before,
        }
    }
}

/// The parsed patterns as mathematical values.
pub open spec fn entries_view(parsed: Seq<(Pattern, usize, Kind)>) -> Seq<(PatternView, usize, Kind)> {
    parsed.map_values(|e: (Pattern, usize, Kind)| (e.0@, e.1, e.2))
}

/// Line numbers are not smaller than one nor larger than the number of lines, and
/// they grow from each entry to the next.
pub proof fn lemma_entries_numbered(all: Seq<Seq<u8>>, support_precious: bool)
    requires
        all.len() <= usize::MAX,
    ensures
        entries(all, support_precious).len() <= all.len(),
        forall|i: int|
            0 <= i < entries(all, support_precious).len() ==> 1 <= (#[trigger] entries(
                all,
                support_precious,
            )[i]).1 <= all.len(),
        forall|i: int, j: int|
            0 <= i < j < entries(all, support_precious).len() ==> (#[trigger] entries(
                all,
                support_precious,
            )[i]).1 < (#[trigger] entries(all, support_precious)[j]).1,
    decreases all.len(),
{
    if all.len() > 0 {
        lemma_entries_numbered(all.drop_last(), support_precious);
        let before = entries(all.drop_last(), support_precious);
        let now = entries(all, support_precious);
        assert forall|i: int| 0 <= i < now.len() implies 1 <= (#[trigger] now[i]).1 <= all.len() by {
            if i < before.len() {
                assert(now[i] == before[i]);
            }
        }
        assert forall|i: int, j: int| 0 <= i < j < now.len() implies (#[trigger] now[i]).1 < (
        #[trigger] now[j]).1 by {
            assert(now[i] == before[i]);
            if j < before.len() {
                assert(now[j] == before[j]);
            }
        }
    }
}

/// A line that begins with `$` is read in one of two ways. Without support for
/// precious files the whole line, the `$` included, is the text of an expendable
/// pattern. With it, the text is what follows the `$`, and the pattern is precious.
pub proof fn lemma_precious_marker(line: Seq<u8>)
    requires
        line.len() > 0,
        line[0] == DOLLAR,
    ensures
        without_trailing_spaces(line).len() > 0,
        without_trailing_spaces(line)[0] == DOLLAR,
        line_entry(line, false) == match parsed(without_trailing_spaces(line)) {
            Some(parts) => Some((as_view(parts), Kind::Expendable)),
            None => None,
        },
        line_entry(line, true) == match parsed_without_negation(
            without_trailing_spaces(line.skip(1)),
        ) {
            Some(parts) => Some((as_view(parts), Kind::Precious)),
            None => None,
        },
{
    lemma_trimmed_len(line, line.len() as int);
    if trimmed_len(line, line.len() as int) == 0 {
        assert(line[0] == SPACE);
    }
}

/// Every pattern that a line gives has its wildcard position inside its text.
pub open spec fn all_wf(parsed: Seq<(Pattern, usize, Kind)>) -> bool {
    forall|i: int| 0 <= i < parsed.len() ==> (#[trigger] parsed[i]).0.wf()
}

/// Whether a backslash takes the meaning from the byte at `i`.
fn is_escaped(s: &[u8], i: usize) -> (r: bool)
    requires
        i <= s.len(),
    ensures
        r == escaped(s@, i as int),
{
    let mut j: usize = i;
    let mut odd = false;
    while j > 0 && s[j - 1] == BACKSLASH
        invariant
            j <= i <= s.len(),
            escaped(s@, i as int) == (odd != escaped(s@, j as int)),
        decreases j,
    {
        j -= 1;
        odd = !odd;
    }
    odd
}

/// `line` without the unescaped spaces at its end.
pub fn truncate_non_escaped_trailing_spaces(line: &[u8]) -> (r: &[u8])
    ensures
        r@ == without_trailing_spaces(line@),
{
    let mut n: usize = line.len();
    while n > 0 && line[n - 1] == SPACE && !is_escaped(line, n - 1)
        invariant
            n <= line.len(),
            trimmed_len(line@, line.len() as int) == trimmed_len(line@, n as int),
        decreases n,
    {
        n -= 1;
    }
    vstd::slice::slice_subrange(line, 0, n)
}

/// Reads one line: the pattern it holds and the kind of that pattern.
pub fn parse_line(line: &[u8], support_precious: bool) -> (r: Option<(Pattern, Kind)>)
    ensures
        r is Some == line_entry(line@, support_precious) is Some,
        r matches Some(e) ==> (e.0@, e.1) == line_entry(line@, support_precious).unwrap() && e.0.wf(),
{
    if line.len() == 0 || line[0] == HASH {
        return None;
    }
    if support_precious && line[0] == DOLLAR {
        let text = truncate_non_escaped_trailing_spaces(vstd::slice::slice_subrange(line, 1, line.len()));
        match parse_pattern_without_negation(text) {
            Some(pattern) => Some((pattern, Kind::Precious)),
            None => None,
        }
    } else {
        match parse_pattern(truncate_non_escaped_trailing_spaces(line)) {
            Some(pattern) => Some((pattern, Kind::Expendable)),
            None => None,
        }
    }
}

/// Reads the patterns out of the bytes of an ignore file, each with the number of its
/// line and its kind.
pub fn parse(bytes: &[u8], support_precious: bool) -> (out: Vec<(Pattern, usize, Kind)>)
    ensures
        entries_view(out@) == entries(lines(bytes@), support_precious),
        all_wf(out@),
{
    let mut out: Vec<(Pattern, usize, Kind)> = Vec::new();
    let mut rest: &[u8] = bytes;
    let mut line_no: usize = 0;
    let ghost mut done: Seq<Seq<u8>> = Seq::empty();
    proof {
        assert(done + lines(rest@) == lines(bytes@));
        assert(entries_view(out@) == entries(done, support_precious));
    }
    while rest.len() > 0
        invariant
            lines(bytes@) == done + lines(rest@),
            line_no == done.len(),
            line_no + rest.len() <= bytes.len(),
            entries_view(out@) == entries(done, support_precious),
            all_wf(out@),
        decreases rest.len(),
    {
        let (line, tail) = split_line(rest);
        let ghost before = out@;
        proof {
            assert(lines(rest@) == seq![first_line(rest@)] + lines(after_first_line(rest@)));
            assert(done.push(line@) + lines(tail@) == done + lines(rest@));
            assert(done.push(line@).drop_last() == done);
        }
        line_no += 1;
        rest = tail;
        match parse_line(line, support_precious) {
            Some((pattern, kind)) => {
                out.push((pattern, line_no, kind));
                proof {
                    assert(entries_view(out@) == entries_view(before).push(
                        (pattern@, line_no, kind),
                    ));
                }
            },
            None => {},
        }
        proof {
            done = done.push(line@);
        }
    }
    proof {
        assert(lines(rest@) == Seq::<Seq<u8>>::empty());
        assert(done + Seq::<Seq<u8>>::empty() == done);
    }
    out
}

} // verus!
