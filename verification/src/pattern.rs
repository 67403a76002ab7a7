//! Glob-style patterns for filesystem paths and variable names.

use crate::text::{
    contains, contains_sub, ends_with, is_prefix, is_suffix, same_chars, slice_chars, starts_with,
    texts, to_chars,
};
use vstd::prelude::*;

verus! {

/// `pat` ends in `/**`: it names a subtree.
pub open spec fn is_subtree(pat: Seq<char>) -> bool {
    pat.len() >= 3 && pat[pat.len() - 3] == '/' && pat[pat.len() - 2] == '*' && pat[pat.len() - 1]
        == '*'
}

/// Whether `s` matches `pat`.
///
/// `*` matches everything; `prefix/**` what begins with `prefix`; `*sub*`
/// what holds `sub`; `*suffix` what ends with `suffix`; `prefix*` what
/// begins with `prefix`; any other pattern itself and nothing else. The
/// first of these forms that `pat` has decides.
pub open spec fn pattern_matches(s: Seq<char>, pat: Seq<char>) -> bool {
    let n = pat.len() as int;
    if pat == seq!['*'] {
        true
    } else if is_subtree(pat) {
        is_prefix(pat.take(n - 3), s)
    } else if n > 0 && pat[0] == '*' && pat[n - 1] == '*' {
        contains_sub(s, pat.subrange(1, n - 1))
    } else if n > 0 && pat[0] == '*' {
        is_suffix(pat.skip(1), s)
    } else if n > 0 && pat[n - 1] == '*' {
        is_prefix(pat.take(n - 1), s)
    } else {
        s == pat
    }
}

/// Some pattern of `pats` matches `s`.
pub open spec fn matches_some(s: Seq<char>, pats: Seq<Seq<char>>) -> bool {
    exists|i: int| 0 <= i < pats.len() && pattern_matches(s, #[trigger] pats[i])
}

/// Whether `s` matches `pat`.
pub fn pattern_admits(s: &[char], pat: &[char]) -> (b: bool)
    ensures
        b == pattern_matches(s@, pat@),
{
    let n: usize = pat.len();
    if n == 1 && pat[0] == '*' {
        assert(pat@ =~= seq!['*']);
        return true;
    }
    assert(pat@ != seq!['*']) by {
        if pat@ == seq!['*'] {
            assert(seq!['*'].len() == 1);
            assert(seq!['*'][0] == '*');
        }
    }
    if n >= 3 && pat[n - 3] == '/' && pat[n - 2] == '*' && pat[n - 1] == '*' {
        let base = slice_chars(pat, 0, n - 3);
        assert(base@ =~= pat@.take(n - 3));
        return starts_with(s, base.as_slice());
    }
    if n > 0 && pat[0] == '*' && pat[n - 1] == '*' {
        let needle = slice_chars(pat, 1, n - 1);
        return contains(s, needle.as_slice());
    }
    if n > 0 && pat[0] == '*' {
        let suffix = slice_chars(pat, 1, n);
        assert(suffix@ =~= pat@.skip(1));
        return ends_with(s, suffix.as_slice());
    }
    if n > 0 && pat[n - 1] == '*' {
        let prefix = slice_chars(pat, 0, n - 1);
        assert(prefix@ =~= pat@.take(n - 1));
        return starts_with(s, prefix.as_slice());
    }
    same_chars(s, pat)
}

/// Whether `s` matches `pat`.
pub fn pat_matches(s: &str, pat: &str) -> (b: bool)
    ensures
        b == pattern_matches(s@, pat@),
{
    let sc = to_chars(s);
    let pc = to_chars(pat);
    pattern_admits(sc.as_slice(), pc.as_slice())
}

/// Whether some pattern of `pats` matches `s`.
pub fn matches_any(s: &str, pats: &Vec<String>) -> (b: bool)
    ensures
        b == matches_some(s@, texts(pats@)),
{
    let sc = to_chars(s);
    let mut i: usize = 0;
    while i < pats.len()
        invariant
            i <= pats@.len(),
            sc@ == s@,
            forall|j: int| 0 <= j < i ==> !pattern_matches(s@, #[trigger] texts(pats@)[j]),
        decreases pats@.len() - i,
    {
        let pc = to_chars(pats[i].as_str());
        assert(texts(pats@)[i as int] == pc@);
        if pattern_admits(sc.as_slice(), pc.as_slice()) {
            return true;
        }
        i += 1;
    }
    false
}

/// The universal pattern matches every text.
pub proof fn lemma_star_matches_all(s: Seq<char>)
    ensures
        pattern_matches(s, seq!['*']),
{
}

/// A pattern without `*` at either end matches itself and nothing else.
pub proof fn lemma_literal_pattern(s: Seq<char>, pat: Seq<char>)
    requires
        pat.len() > 0,
        pat[0] != '*',
        pat[pat.len() - 1] != '*',
    ensures
        pattern_matches(s, pat) <==> s == pat,
{
    assert(pat != seq!['*']) by {
        if pat == seq!['*'] {
            assert(seq!['*'][0] == '*');
        }
    }
}

} // verus!
