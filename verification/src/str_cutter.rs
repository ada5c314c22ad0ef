//! Cutting a symbol into pieces around a pattern.
use vstd::prelude::*;

use crate::input::{starts_with, Input};

verus! {

/// The first position at or after `i` where `pat` occurs in `t`.
pub open spec fn find_from(t: Seq<char>, pat: Seq<char>, i: int) -> Option<int>
    decreases t.len() + 1 - i,
{
    if i < 0 || i + pat.len() > t.len() {
        None
    } else if t.subrange(i, i + pat.len()) == pat {
        Some(i)
    } else {
        find_from(t, pat, i + 1)
    }
}

/// `t` split at the first occurrence of `pat`, when both sides are
/// non-empty.
pub open spec fn split2(t: Seq<char>, pat: Seq<char>) -> Option<(Seq<char>, Seq<char>)> {
    match find_from(t, pat, 0) {
        Some(i) => {
            let l = t.take(i);
            let r = t.skip(i + pat.len());
            if l.len() == 0 || r.len() == 0 {
                None
            } else {
                Some((l, r))
            }
        },
        None => None,
    }
}

/// The characters that may start the class part of a method symbol.
pub open spec fn is_class_start(c: char) -> bool {
    ('1' <= c <= '9') || c == 'C' || c == 't'
}

/// The split of `t` at the first `__` found at or after `i`, read where a
/// run of underscores ends: when the character after it begins a class,
/// the parts before and after the `__`, and that character.
pub open spec fn split_r_from(t: Seq<char>, i: int) -> Option<(Seq<char>, Seq<char>, char)>
    decreases t.len() - i,
{
    if i < 1 || i + 2 >= t.len() {
        None
    } else if t[i] == '_' && t[i + 1] == '_' {
        if is_class_start(t[i + 2]) {
            Some((t.take(i), t.skip(i + 2), t[i + 2]))
        } else if t[i + 2] == '_' {
            split_r_from(t, i + 1)
        } else {
            None
        }
    } else {
        split_r_from(t, i + 1)
    }
}

/// `t` split at its first `__` after the first character (the last two of
/// a longer run of underscores), when what follows it begins a class: the
/// part before, the part after, and the character it begins with. Only
/// that first `__` is considered: when something else follows it, there is
/// no split, even if a later `__` is followed by a class.
pub open spec fn split2_r_starts_with(t: Seq<char>) -> Option<(Seq<char>, Seq<char>, char)> {
    split_r_from(t, 1)
}

/// `t` without `prefix` and then `c`, when `cond` holds and it begins so.
pub open spec fn cond_strip_prefix_and_char(t: Seq<char>, cond: bool, prefix: Seq<char>, c: char) -> Option<Seq<char>> {
    if cond && starts_with(t, prefix) && t.len() > prefix.len() && t[prefix.len() as int] == c {
        Some(t.skip(prefix.len() as int + 1))
    } else {
        None
    }
}

/// `t` without its first character when that is `c`, and whether it was.
pub open spec fn maybe_strip_prefix(t: Seq<char>, c: char) -> (Seq<char>, bool) {
    if t.len() > 0 && t[0] == c {
        (t.skip(1), true)
    } else {
        (t, false)
    }
}

/// The first position of `pat` in the window `lo..hi`.
pub fn find_in(inp: &Input, lo: usize, hi: usize, pat: &str) -> (r: Option<usize>)
    requires
        inp.wf(),
        lo <= hi <= inp@.len(),
    ensures
        match find_from(inp@.subrange(lo as int, hi as int), pat@, 0) {
            Some(i) => r == Some((lo + i) as usize),
            None => r is None,
        },
{
    let ghost t = inp@.subrange(lo as int, hi as int);
    let n = pat.unicode_len();
    if n > hi - lo {
        return None;
    }
    if n == 0 {
        assert(t.subrange(0, 0) =~= pat@);
        return Some(lo);
    }
    let mut i = lo;
    while n <= hi - i
        invariant
            inp.wf(),
            lo <= i <= hi <= inp@.len(),
            n == pat@.len(),
            0 < n <= hi - lo,
            t == inp@.subrange(lo as int, hi as int),
            find_from(t, pat@, i - lo) == find_from(t, pat@, 0),
        decreases hi - i,
    {
        let b = inp.starts_with(i, hi, pat);
        assert(inp@.subrange(i as int, hi as int).take(n as int) =~= t.subrange(i - lo, i - lo + n));
        if b {
            return Some(i);
        }
        i = i + 1;
    }
    None
}

/// Splits the window `lo..hi` at the first occurrence of `pat`, when both
/// sides are non-empty; gives the end of the left side and the start of
/// the right side.
pub fn c_split2(inp: &Input, lo: usize, hi: usize, pat: &str) -> (r: Option<(usize, usize)>)
    requires
        inp.wf(),
        lo <= hi <= inp@.len(),
    ensures
        match split2(inp@.subrange(lo as int, hi as int), pat@) {
            Some((l, rt)) => r matches Some((a, b)) && lo < a && a + pat@.len() == b && b < hi
                && l == inp@.subrange(lo as int, a as int) && rt == inp@.subrange(b as int, hi as int),
            None => r is None,
        },
{
    let ghost t = inp@.subrange(lo as int, hi as int);
    let n = pat.unicode_len();
    match find_in(inp, lo, hi, pat) {
        Some(i) => {
            proof {
                lemma_find_from_bound(t, pat@, 0);
            }
            let b = i + n;
            if i == lo || b == hi {
                None
            } else {
                assert(t.take(i - lo) =~= inp@.subrange(lo as int, i as int));
                assert(t.skip(i - lo + n) =~= inp@.subrange(b as int, hi as int));
                Some((i, b))
            }
        },
        None => None,
    }
}

/// Splits the window `lo..hi` at the first occurrence of the character `c`,
/// when both sides are non-empty; gives the end of the left side and the
/// start of the right side.
pub fn c_split2_char(inp: &Input, lo: usize, hi: usize, c: char) -> (r: Option<(usize, usize)>)
    requires
        inp.wf(),
        lo <= hi <= inp@.len(),
    ensures
        match split2(inp@.subrange(lo as int, hi as int), seq![c]) {
            Some((l, rt)) => r matches Some((a, b)) && lo < a && a + 1 == b && b < hi
                && l == inp@.subrange(lo as int, a as int) && rt == inp@.subrange(b as int, hi as int),
            None => r is None,
        },
{
    let ghost t = inp@.subrange(lo as int, hi as int);
    let mut i = lo;
    while i < hi
        invariant
            inp.wf(),
            lo <= i <= hi <= inp@.len(),
            t == inp@.subrange(lo as int, hi as int),
            find_from(t, seq![c], i - lo) == find_from(t, seq![c], 0),
        decreases hi - i,
    {
        assert(t.subrange(i - lo, i - lo + 1) =~= seq![inp@[i as int]]);
        let ci = inp.at(i);
        if ci == c {
            proof {
                lemma_find_from_bound(t, seq![c], 0);
            }
            if i == lo || i + 1 == hi {
                return None;
            }
            assert(t.take(i - lo) =~= inp@.subrange(lo as int, i as int));
            assert(t.skip(i - lo + 1) =~= inp@.subrange(i + 1, hi as int));
            return Some((i, i + 1));
        }
        assert(t.subrange(i - lo, i - lo + 1) != seq![c]) by {
            assert(t.subrange(i - lo, i - lo + 1)[0] == ci);
        }
        i = i + 1;
    }
    None
}

/// Where `find_from` finds `pat`, it lies within `t`, at or after `i`.
pub proof fn lemma_find_from_bound(t: Seq<char>, pat: Seq<char>, i: int)
    ensures
        find_from(t, pat, i) matches Some(j) ==> i <= j && j + pat.len() <= t.len() && t.subrange(j, j + pat.len()) == pat,
    decreases t.len() + 1 - i,
{
    if !(i < 0 || i + pat.len() > t.len()) && t.subrange(i, i + pat.len()) != pat {
        lemma_find_from_bound(t, pat, i + 1);
    }
}

/// Splits the window `lo..hi` at its first `__` after the first character
/// (the last two of a longer run of underscores), when what follows it
/// begins a class; gives the end of the left side, the start of the right
/// side and its first character.
pub fn c_split2_r_starts_with(inp: &Input, lo: usize, hi: usize) -> (r: Option<(usize, usize, char)>)
    requires
        inp.wf(),
        lo <= hi <= inp@.len(),
    ensures
        match split2_r_starts_with(inp@.subrange(lo as int, hi as int)) {
            Some((l, rt, c)) => r matches Some((a, b, c2)) && lo < a && a + 2 == b && b < hi
                && l == inp@.subrange(lo as int, a as int) && rt == inp@.subrange(b as int, hi as int)
                && c2 == c,
            None => r is None,
        },
{
    let ghost t = inp@.subrange(lo as int, hi as int);
    if hi - lo < 4 {
        return None;
    }
    let mut i: usize = lo + 1;
    while i < hi - 2
        invariant
            inp.wf(),
            lo < i <= hi - 2,
            lo + 4 <= hi <= inp@.len(),
            t == inp@.subrange(lo as int, hi as int),
            split_r_from(t, i - lo) == split_r_from(t, 1),
        decreases hi - i,
    {
        if inp.at(i) == '_' && inp.at(i + 1) == '_' {
            let c = inp.at(i + 2);
            if ('1' <= c && c <= '9') || c == 'C' || c == 't' {
                assert(t.take(i - lo) =~= inp@.subrange(lo as int, i as int));
                assert(t.skip(i - lo + 2) =~= inp@.subrange(i + 2, hi as int));
                return Some((i, i + 2, c));
            } else if c != '_' {
                return None;
            }
        }
        i = i + 1;
    }
    None
}

/// Strips `prefix` and then `c` from the start of the window `lo..hi`, when
/// `cond` holds; gives the start of what is left.
pub fn c_cond_and_strip_prefix_and_char(inp: &Input, lo: usize, hi: usize, cond: bool, prefix: &str, c: char) -> (r: Option<usize>)
    requires
        inp.wf(),
        lo <= hi <= inp@.len(),
    ensures
        match cond_strip_prefix_and_char(inp@.subrange(lo as int, hi as int), cond, prefix@, c) {
            Some(rt) => r matches Some(p) && lo < p <= hi && rt == inp@.subrange(p as int, hi as int),
            None => r is None,
        },
{
    if !cond {
        return None;
    }
    if !inp.starts_with(lo, hi, prefix) {
        return None;
    }
    let n = prefix.unicode_len();
    if n < hi - lo && inp.at(lo + n) == c {
        assert(inp@.subrange(lo as int, hi as int).skip(n + 1) =~= inp@.subrange(lo + n + 1, hi as int));
        Some(lo + n + 1)
    } else {
        None
    }
}

/// Strips `c` from the start of the window `lo..hi` when it is there; gives
/// the start of what is left and whether it was stripped.
pub fn c_maybe_strip_prefix(inp: &Input, lo: usize, hi: usize, c: char) -> (r: (usize, bool))
    requires
        inp.wf(),
        lo <= hi <= inp@.len(),
    ensures
        lo <= r.0 <= hi,
        maybe_strip_prefix(inp@.subrange(lo as int, hi as int), c) == (inp@.subrange(r.0 as int, hi as int), r.1),
        r.1 <==> r.0 == lo + 1,
{
    if lo < hi && inp.at(lo) == c {
        assert(inp@.subrange(lo as int, hi as int).skip(1) =~= inp@.subrange(lo + 1, hi as int));
        (lo + 1, true)
    } else {
        (lo, false)
    }
}

} // verus!
