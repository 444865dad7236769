//! From the bytes of a value as they stand in a file to the value that they mean.
//!
//! Quotes that enclose the whole value are taken off. In what is left, a quote is
//! dropped, and a backslash gives the byte after it a meaning: `\n` is a line feed,
//! `\t` a tab, `\b` removes the byte before it, and any other byte stands for
//! itself. A backslash at the very end is dropped.

use vstd::prelude::*;

verus! {

/// The byte that encloses text in which blanks count.
pub const QUOTE: u8 = 34;

/// The byte that gives the one after it a meaning.
pub const BACKSLASH: u8 = 92;

/// Whether quotes enclose `s`: it begins and ends with a quote, holds something
/// between them, and the closing quote is not escaped.
pub open spec fn is_enclosed(s: Seq<u8>) -> bool {
    s.len() >= 3 && s[0] == QUOTE && s[s.len() - 1] == QUOTE && s[s.len() - 2] != BACKSLASH
}

/// `s` without the quotes that enclose it, as often as quotes enclose what is left.
/// Two quotes with nothing between them leave nothing.
pub open spec fn without_outer_quotes(s: Seq<u8>) -> Seq<u8>
    decreases s.len(),
{
    if s == seq![QUOTE, QUOTE] {
        Seq::empty()
    } else if is_enclosed(s) {
        without_outer_quotes(s.subrange(1, s.len() - 1))
    } else {
        s
    }
}

/// What a backslash before `b` stands for, put behind `out`.
pub open spec fn escape(out: Seq<u8>, b: u8) -> Seq<u8> {
    if b == 110 {
        out.push(10)
    } else if b == 116 {
        out.push(9)
    } else if b == 98 {
        if out.len() > 0 {
            out.drop_last()
        } else {
            out
        }
    } else {
        out.push(b)
    }
}

/// `out`, followed by what `s` means from its byte `from` on.
pub open spec fn unescaped(s: Seq<u8>, from: int, out: Seq<u8>) -> Seq<u8>
    decreases s.len() - from,
{
    if from < 0 || from >= s.len() {
        out
    } else if s[from] == BACKSLASH {
        if from + 1 >= s.len() {
            out
        } else {
            unescaped(s, from + 2, escape(out, s[from + 1]))
        }
    } else if s[from] == QUOTE {
        unescaped(s, from + 1, out)
    } else {
        unescaped(s, from + 1, out.push(s[from]))
    }
}

/// The value that the bytes `input` of a file mean.
pub open spec fn normalized(input: Seq<u8>) -> Seq<u8> {
    unescaped(without_outer_quotes(input), 0, Seq::empty())
}

/// The value that the bytes `input` of a file mean.
pub fn normalize(input: &[u8]) -> (r: Vec<u8>)
    ensures
        r@ == normalized(input@),
{
    let mut lo: usize = 0;
    let mut hi: usize = input.len();
    let mut out: Vec<u8> = Vec::new();
    assert(input@.subrange(0, input@.len() as int) =~= input@);
    loop
        invariant
            lo <= hi <= input.len(),
            out@.len() == 0,
            without_outer_quotes(input@) == without_outer_quotes(input@.subrange(lo as int, hi as int)),
        ensures
            without_outer_quotes(input@) == input@.subrange(lo as int, hi as int),
        decreases hi - lo,
    {
        let ghost s = input@.subrange(lo as int, hi as int);
        if hi - lo == 2 && input[lo] == QUOTE && input[lo + 1] == QUOTE {
            assert(s =~= seq![QUOTE, QUOTE]);
            assert(normalized(input@) =~= Seq::<u8>::empty());
            return out;
        }
        assert(s != seq![QUOTE, QUOTE]) by {
            if s.len() == 2 {
                assert(seq![QUOTE, QUOTE][0] == QUOTE);
                assert(seq![QUOTE, QUOTE][1] == QUOTE);
            }
        }
        if hi - lo >= 3 && input[lo] == QUOTE && input[hi - 1] == QUOTE && input[hi - 2] != BACKSLASH {
            assert(s.subrange(1, s.len() - 1) =~= input@.subrange(lo + 1, hi - 1));
            lo += 1;
            hi -= 1;
        } else {
            assert(!is_enclosed(s));
            break;
        }
    }
    let ghost s = input@.subrange(lo as int, hi as int);
    let mut i: usize = lo;
    while i < hi
        invariant
            lo <= i <= hi <= input.len(),
            s == input@.subrange(lo as int, hi as int),
            normalized(input@) == unescaped(s, i - lo, out@),
        ensures
            normalized(input@) == out@,
        decreases hi - i,
    {
        let b = input[i];
        assert(s[i - lo] == b);
        if b == BACKSLASH {
            if i + 1 >= hi {
                break;
            }
            let c = input[i + 1];
            assert(s[i - lo + 1] == c);
            if c == 110 {
                out.push(10);
            } else if c == 116 {
                out.push(9);
            } else if c == 98 {
                let ghost before = out@;
                out.pop();
                assert(before.len() > 0 ==> out@ == before.drop_last());
            } else {
                out.push(c);
            }
            i += 2;
        } else if b == QUOTE {
            i += 1;
        } else {
            out.push(b);
            i += 1;
        }
    }
    out
}

} // verus!
