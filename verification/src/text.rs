//! Character-level helpers shared by the path model.

use vstd::prelude::*;

verus! {

/// Copies the characters of `s` into a vector, in order.
pub fn chars_of(s: &str) -> (out: Vec<char>)
    ensures
        out@ == s@,
{
    let mut out: Vec<char> = Vec::new();
    for c in it: s.chars()
        invariant
            it.seq() == s@,
            out@ == s@.take(it.index() as int),
    {
        out.push(c);
        assert(s@.take(it.index() as int).push(c) == s@.take(it.index() as int + 1));
    }
    assert(s@.take(s@.len() as int) == s@);
    out
}

/// White space, as Unicode defines it: the characters with the property
/// `White_Space`.
pub open spec fn is_space(c: char) -> bool {
    ||| '\u{9}' <= c <= '\u{d}'
    ||| c == ' '
    ||| c == '\u{85}'
    ||| c == '\u{a0}'
    ||| c == '\u{1680}'
    ||| '\u{2000}' <= c <= '\u{200a}'
    ||| c == '\u{2028}'
    ||| c == '\u{2029}'
    ||| c == '\u{202f}'
    ||| c == '\u{205f}'
    ||| c == '\u{3000}'
}

/// Whether `c` is white space.
pub fn char_is_space(c: char) -> (yes: bool)
    ensures
        yes == is_space(c),
{
    ('\u{9}' <= c && c <= '\u{d}') || c == ' ' || c == '\u{85}' || c == '\u{a0}' || c
        == '\u{1680}' || ('\u{2000}' <= c && c <= '\u{200a}') || c == '\u{2028}' || c
        == '\u{2029}' || c == '\u{202f}' || c == '\u{205f}' || c == '\u{3000}'
}

/// `text` without the white space at its end.
pub open spec fn trim_end(text: Seq<char>) -> Seq<char>
    decreases text.len(),
{
    if text.len() > 0 && is_space(text.last()) {
        trim_end(text.drop_last())
    } else {
        text
    }
}

/// `text` without the white space at its start.
pub open spec fn trim_start(text: Seq<char>) -> Seq<char>
    decreases text.len(),
{
    if text.len() > 0 && is_space(text[0]) {
        trim_start(text.drop_first())
    } else {
        text
    }
}

/// `text` without the white space at either end.
pub open spec fn trim(text: Seq<char>) -> Seq<char> {
    trim_start(trim_end(text))
}

/// Removes the white space at both ends of `text`.
pub fn trimmed(text: &str) -> (out: String)
    ensures
        out@ == trim(text@),
{
    let chars = chars_of(text);
    let n: usize = chars.len();
    let mut end: usize = n;
    proof {
        assert(text@.take(n as int) == text@);
    }
    while end > 0 && char_is_space(chars[end - 1])
        invariant
            chars@ == text@,
            end <= n == chars@.len(),
            trim_end(text@) == trim_end(text@.take(end as int)),
        decreases end,
    {
        proof {
            assert(text@.take(end as int).drop_last() == text@.take(end as int - 1));
        }
        end = end - 1;
    }
    let mut start: usize = 0;
    proof {
        assert(text@.subrange(0, end as int) == text@.take(end as int));
    }
    while start < end && char_is_space(chars[start])
        invariant
            chars@ == text@,
            start <= end <= n == chars@.len(),
            trim(text@) == trim_start(text@.subrange(start as int, end as int)),
        decreases end - start,
    {
        proof {
            assert(text@.subrange(start as int, end as int).drop_first() == text@.subrange(
                start as int + 1,
                end as int,
            ));
        }
        start = start + 1;
    }
    text.substring_char(start, end).to_owned()
}

} // verus!
