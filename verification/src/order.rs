//! The order in which a listing is given: texts are compared character by
//! character, by code point.

use vstd::prelude::*;
use vstd::std_specs::iter::IteratorSpec;

verus! {

/// Whether `a` comes before `b`, or is `b`, in the order of the dictionary:
/// the first character in which they differ decides, and a text comes before
/// every longer text that starts with it.
pub open spec fn lex_le(a: Seq<char>, b: Seq<char>) -> bool
    decreases a.len(),
{
    if a.len() == 0 {
        true
    } else if b.len() == 0 {
        false
    } else if a[0] == b[0] {
        lex_le(a.drop_first(), b.drop_first())
    } else {
        (a[0] as int) < (b[0] as int)
    }
}

/// Every text comes before itself.
pub proof fn lemma_lex_reflexive(a: Seq<char>)
    ensures
        lex_le(a, a),
    decreases a.len(),
{
    if a.len() > 0 {
        lemma_lex_reflexive(a.drop_first());
    }
}

/// Of two texts, one comes before the other.
pub proof fn lemma_lex_total(a: Seq<char>, b: Seq<char>)
    ensures
        lex_le(a, b) || lex_le(b, a),
    decreases a.len(),
{
    if a.len() > 0 && b.len() > 0 && a[0] == b[0] {
        lemma_lex_total(a.drop_first(), b.drop_first());
    }
}

/// What comes before a text comes before everything that the text comes
/// before.
pub proof fn lemma_lex_transitive(a: Seq<char>, b: Seq<char>, c: Seq<char>)
    requires
        lex_le(a, b),
        lex_le(b, c),
    ensures
        lex_le(a, c),
    decreases a.len(),
{
    if a.len() > 0 && b.len() > 0 && c.len() > 0 && a[0] == b[0] && b[0] == c[0] {
        lemma_lex_transitive(a.drop_first(), b.drop_first(), c.drop_first());
    }
}

/// Two texts that come before each other are the same text.
pub proof fn lemma_lex_antisymmetric(a: Seq<char>, b: Seq<char>)
    requires
        lex_le(a, b),
        lex_le(b, a),
    ensures
        a == b,
    decreases a.len(),
{
    if a.len() > 0 && b.len() > 0 {
        lemma_lex_antisymmetric(a.drop_first(), b.drop_first());
        assert(a == seq![a[0]] + a.drop_first());
        assert(b == seq![b[0]] + b.drop_first());
    } else {
        assert(a == b);
    }
}

/// Whether `a` comes before `b`, or is `b`.
pub fn text_le(a: &str, b: &str) -> (le: bool)
    ensures
        le == lex_le(a@, b@),
{
    let mut rest_a = a.chars();
    let mut rest_b = b.chars();
    loop
        invariant
            rest_a.obeys_prophetic_iter_laws(),
            rest_b.obeys_prophetic_iter_laws(),
            lex_le(rest_a.remaining(), rest_b.remaining()) == lex_le(a@, b@),
            rest_a.decrease() is Some,
        decreases rest_a.decrease()->0,
    {
        match rest_a.next() {
            None => {
                return true;
            },
            Some(x) => match rest_b.next() {
                None => {
                    return false;
                },
                Some(y) => {
                    if x != y {
                        return x < y;
                    }
                },
            },
        }
    }
}

} // verus!
