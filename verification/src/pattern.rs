//! Containment patterns for identifier expansion.
//!
//! A metric identifier may be given as a pattern: expansion keeps every row
//! whose target column contains a match of the pattern.  Matching is
//! case-sensitive regular-expression search; a pattern free of
//! metacharacters therefore degenerates to plain substring containment, so
//! an exact identifier matches at least itself.

use vstd::prelude::*;

verus! {

/// Whether `c` is a character the regular-expression syntax treats
/// specially outside character classes.
pub open spec fn is_regex_meta(c: char) -> bool {
    ||| c == '\\'
    ||| c == '.'
    ||| c == '+'
    ||| c == '*'
    ||| c == '?'
    ||| c == '('
    ||| c == ')'
    ||| c == '|'
    ||| c == '['
    ||| c == ']'
    ||| c == '{'
    ||| c == '}'
    ||| c == '^'
    ||| c == '$'
}

/// A pattern that holds no metacharacter: as a regular expression it
/// matches exactly its own text.
pub open spec fn is_literal_pattern(p: Seq<char>) -> bool {
    forall|i: int| 0 <= i < p.len() ==> !is_regex_meta(#[trigger] p[i])
}

/// Whether `p` occurs in `t` as a contiguous subsequence.
pub open spec fn is_substring(p: Seq<char>, t: Seq<char>) -> bool {
    exists|i: int| 0 <= i && i + p.len() <= t.len() && #[trigger] t.subrange(i, i + p.len()) == p
}

/// What the regular-expression engine answers when asked whether a match
/// of the pattern occurs anywhere in the text.  Only patterns that hold a
/// metacharacter are interpreted through this name; see [`pattern_matches`].
pub uninterp spec fn regex_accepts(pattern: Seq<char>, text: Seq<char>) -> bool;

/// Whether the regular-expression engine accepts `pattern` as a valid
/// pattern and compiles it.
pub uninterp spec fn regex_compiles(pattern: Seq<char>) -> bool;

/// Whether a match of `pattern` occurs anywhere in `text`.  A pattern free
/// of metacharacters matches exactly where its own text occurs, so for such
/// patterns containment is plain substring containment.
pub open spec fn pattern_matches(pattern: Seq<char>, text: Seq<char>) -> bool {
    if is_literal_pattern(pattern) {
        is_substring(pattern, text)
    } else {
        regex_accepts(pattern, text)
    }
}

/// Relies on `regex::Regex::new` and `regex::Regex::is_match`: `new`
/// compiles the pattern or reports it invalid (or over the engine's size
/// limit), and `is_match` returns true if and only if a match of the
/// pattern occurs anywhere in the haystack.  A pattern without
/// metacharacters matches exactly its own text, so for such patterns
/// `is_match` decides substring containment.
#[verifier::external_body]
pub(crate) fn regex_is_match(pattern: &str, text: &str) -> (r: Option<bool>)
    ensures
        r is Some <==> regex_compiles(pattern@),
        r is Some ==> r->0 == pattern_matches(pattern@, text@),
        (r is Some && !is_literal_pattern(pattern@)) ==> r->0 == regex_accepts(pattern@, text@),
{
    match regex::Regex::new(pattern) {
        Ok(re) => Some(re.is_match(text)),
        Err(_) => None,
    }
}

/// A whole string trivially contains itself.
pub proof fn lemma_substring_self(t: Seq<char>)
    ensures
        is_substring(t, t),
{
    assert(t.subrange(0, 0 + t.len() as int) =~= t);
}

} // verus!
