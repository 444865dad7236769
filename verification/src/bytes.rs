//! Byte strings as sequences: the vocabulary that the contracts of this crate share.

use vstd::prelude::*;

verus! {

/// The byte that separates the components of a path.
pub const SLASH: u8 = 47;

/// The byte that ends a line.
pub const NEWLINE: u8 = 10;

/// The byte that may stand before the one that ends a line.
pub const CARRIAGE_RETURN: u8 = 13;

/// `b` with an ASCII upper case letter replaced by its lower case form.
pub open spec fn lower(b: u8) -> u8 {
    if 65 <= b <= 90 {
        (b + 32) as u8
    } else {
        b
    }
}

/// Whether `a` and `b` are equal once ASCII letters are compared without regard to case.
pub open spec fn eq_ignore_case(a: Seq<u8>, b: Seq<u8>) -> bool {
    &&& a.len() == b.len()
    &&& forall|i: int| 0 <= i < a.len() ==> lower(#[trigger] a[i]) == lower(b[i])
}

/// `b` with an ASCII upper case letter replaced by its lower case form.
pub fn to_lower(b: u8) -> (r: u8)
    ensures
        r == lower(b),
{
    if 65 <= b && b <= 90 {
        b + 32
    } else {
        b
    }
}

/// Whether `a` and `b` are equal once ASCII letters are compared without regard to case.
pub fn eq_ignore_ascii_case(a: &[u8], b: &[u8]) -> (r: bool)
    ensures
        r == eq_ignore_case(a@, b@),
{
    if a.len() != b.len() {
        return false;
    }
    let mut i: usize = 0;
    while i < a.len()
        invariant
            i <= a.len(),
            a.len() == b.len(),
            forall|j: int| 0 <= j < i ==> lower(#[trigger] a@[j]) == lower(b@[j]),
        decreases a.len() - i,
    {
        if to_lower(a[i]) != to_lower(b[i]) {
            return false;
        }
        i += 1;
    }
    true
}

/// Whether `s` holds the byte `b`.
pub open spec fn has_byte(s: Seq<u8>, b: u8) -> bool {
    exists|i: int| 0 <= i < s.len() && s[i] == b
}

/// The index of the last occurrence of `b` in `s`, if there is one.
pub open spec fn last_index_of(s: Seq<u8>, b: u8) -> Option<int>
    decreases s.len(),
{
    if s.len() == 0 {
        None
    } else if s.last() == b {
        Some(s.len() - 1)
    } else {
        last_index_of(s.drop_last(), b)
    }
}

/// What `last_index_of` means: the index it gives holds `b` and no later one does,
/// and it gives none exactly if `b` does not occur.
pub proof fn lemma_last_index_of(s: Seq<u8>, b: u8)
    ensures
        match last_index_of(s, b) {
            Some(i) => 0 <= i < s.len() && s[i] == b && forall|j: int| i < j < s.len() ==> s[j] != b,
            None => !has_byte(s, b),
        },
    decreases s.len(),
{
    if s.len() > 0 && s.last() != b {
        let front = s.drop_last();
        lemma_last_index_of(front, b);
        match last_index_of(front, b) {
            Some(i) => {
                assert(s[i] == front[i]);
                assert forall|j: int| i < j < s.len() implies s[j] != b by {
                    if j < front.len() {
                        assert(front[j] == s[j]);
                    }
                }
            },
            None => {
                assert forall|j: int| 0 <= j < s.len() implies s[j] != b by {
                    if j < front.len() {
                        assert(front[j] == s[j]);
                    }
                }
            },
        }
    }
}

/// The index is the only one with the property that `lemma_last_index_of` states.
pub proof fn lemma_last_index_of_unique(s: Seq<u8>, b: u8, i: int)
    requires
        0 <= i < s.len(),
        s[i] == b,
        forall|j: int| i < j < s.len() ==> s[j] != b,
    ensures
        last_index_of(s, b) == Some(i),
{
    lemma_last_index_of(s, b);
}

/// The index of the last `b` in `s`.
pub fn rfind_byte(s: &[u8], b: u8) -> (r: Option<usize>)
    ensures
        r matches Some(i) ==> i < s.len() && last_index_of(s@, b) == Some(i as int),
        r is None ==> last_index_of(s@, b) is None,
{
    let mut i: usize = s.len();
    while i > 0
        invariant
            i <= s.len(),
            forall|j: int| i <= j < s.len() ==> s@[j] != b,
        decreases i,
    {
        i -= 1;
        if s[i] == b {
            proof {
                lemma_last_index_of_unique(s@, b, i as int);
            }
            return Some(i);
        }
    }
    proof {
        lemma_last_index_of(s@, b);
    }
    None
}

/// Whether `a` and `b` hold the same bytes.
pub fn eq_bytes(a: &[u8], b: &[u8]) -> (r: bool)
    ensures
        r == (a@ == b@),
{
    if a.len() != b.len() {
        return false;
    }
    let mut i: usize = 0;
    while i < a.len()
        invariant
            i <= a.len(),
            a.len() == b.len(),
            forall|j: int| 0 <= j < i ==> a@[j] == b@[j],
        decreases a.len() - i,
    {
        if a[i] != b[i] {
            return false;
        }
        i += 1;
    }
    assert(a@ =~= b@);
    true
}

/// A vector with the bytes of `s`.
pub fn to_vec(s: &[u8]) -> (r: Vec<u8>)
    ensures
        r@ == s@,
{
    let mut out: Vec<u8> = Vec::new();
    out.extend_from_slice(s);
    assert(out@ =~= s@);
    out
}

/// Whether `s` holds the byte `b`.
pub fn contains_byte(s: &[u8], b: u8) -> (r: bool)
    ensures
        r == has_byte(s@, b),
{
    let mut i: usize = 0;
    while i < s.len()
        invariant
            i <= s.len(),
            forall|j: int| 0 <= j < i ==> s@[j] != b,
        decreases s.len() - i,
    {
        if s[i] == b {
            return true;
        }
        i += 1;
    }
    false
}

/// The index of the first `b` in `s` at or after `start`, or the length of `s` where
/// there is none.
pub open spec fn index_of_from(s: Seq<u8>, b: u8, start: int) -> int
    decreases s.len() - start,
{
    if start < 0 || start >= s.len() {
        s.len() as int
    } else if s[start] == b {
        start
    } else {
        index_of_from(s, b, start + 1)
    }
}

/// What `index_of_from` means: no byte from `start` up to the index it gives is
/// `b`, and the index holds `b` unless it is the length of `s`.
pub proof fn lemma_index_of_from(s: Seq<u8>, b: u8, start: int)
    requires
        0 <= start <= s.len(),
    ensures
        start <= index_of_from(s, b, start) <= s.len(),
        forall|j: int| start <= j < index_of_from(s, b, start) ==> s[j] != b,
        index_of_from(s, b, start) < s.len() ==> s[index_of_from(s, b, start)] == b,
    decreases s.len() - start,
{
    if start < s.len() && s[start] != b {
        lemma_index_of_from(s, b, start + 1);
    }
}

/// An index with the property that `lemma_index_of_from` states is the one that
/// `index_of_from` gives.
pub proof fn lemma_index_of_from_unique(s: Seq<u8>, b: u8, start: int, at: int)
    requires
        0 <= start <= at <= s.len(),
        forall|j: int| start <= j < at ==> s[j] != b,
        at < s.len() ==> s[at] == b,
    ensures
        index_of_from(s, b, start) == at,
    decreases at - start,
{
    if start < at {
        lemma_index_of_from_unique(s, b, start + 1, at);
    }
}

/// The index of the first `b` in `s`, or the length of `s` where there is none.
pub fn find_byte(s: &[u8], b: u8) -> (r: usize)
    ensures
        r == index_of_from(s@, b, 0),
        r <= s.len(),
{
    let mut i: usize = 0;
    while i < s.len() && s[i] != b
        invariant
            i <= s.len(),
            forall|j: int| 0 <= j < i ==> s@[j] != b,
        decreases s.len() - i,
    {
        i += 1;
    }
    proof {
        lemma_index_of_from_unique(s@, b, 0, i as int);
    }
    i
}

/// The first line of `s` without its terminator: what stands before the first line
/// feed, less one carriage return where one stands directly before that line feed.
/// A last line that no line feed ends keeps a trailing carriage return.
pub open spec fn first_line(s: Seq<u8>) -> Seq<u8> {
    let end = index_of_from(s, NEWLINE, 0);
    if end < s.len() && end > 0 && s[end - 1] == CARRIAGE_RETURN {
        s.subrange(0, end - 1)
    } else {
        s.subrange(0, end)
    }
}

/// What follows the first line of `s` and its line feed.
pub open spec fn after_first_line(s: Seq<u8>) -> Seq<u8> {
    let end = index_of_from(s, NEWLINE, 0);
    if end < s.len() {
        s.subrange(end + 1, s.len() as int)
    } else {
        Seq::empty()
    }
}

/// The lines of `s`, each without its terminator, which is a line feed or a carriage
/// return and a line feed. An empty `s` has no line, and a line feed at the very end
/// starts no further line.
pub open spec fn lines(s: Seq<u8>) -> Seq<Seq<u8>>
    decreases s.len(),
{
    if s.len() == 0 {
        Seq::empty()
    } else {
        proof {
            lemma_index_of_from(s, NEWLINE, 0);
        }
        seq![first_line(s)] + lines(after_first_line(s))
    }
}

/// There are no more lines than bytes.
pub proof fn lemma_lines_len(s: Seq<u8>)
    ensures
        lines(s).len() <= s.len(),
    decreases s.len(),
{
    if s.len() > 0 {
        lemma_index_of_from(s, NEWLINE, 0);
        lemma_lines_len(after_first_line(s));
    }
}

/// Splits the first line off `s`: the line without its terminator, and what follows.
pub fn split_line(s: &[u8]) -> (r: (&[u8], &[u8]))
    requires
        s.len() > 0,
    ensures
        r.0@ == first_line(s@),
        r.1@ == after_first_line(s@),
        r.1.len() < s.len(),
{
    let end = find_byte(s, NEWLINE);
    if end < s.len() {
        let rest = vstd::slice::slice_subrange(s, end + 1, s.len());
        if end > 0 && s[end - 1] == CARRIAGE_RETURN {
            (vstd::slice::slice_subrange(s, 0, end - 1), rest)
        } else {
            (vstd::slice::slice_subrange(s, 0, end), rest)
        }
    } else {
        (s, vstd::slice::slice_subrange(s, end, end))
    }
}

} // verus!
