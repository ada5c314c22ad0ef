//! Reading numbers and characters off the front of a symbol.
use vstd::prelude::*;

use crate::input::Input;

verus! {

/// The result of consuming a text from the left: what is left (`r`) and
/// what was read (`d`).
#[derive(Debug, Clone, Copy, PartialEq, Eq)]
pub struct Remaining<'s, T> {
    /// The part that was not read.
    pub r: &'s str,
    /// The value that was read.
    pub d: T,
}

impl<'s, T> Remaining<'s, T> {
    /// What is left, `remaining`, and what was read, `data`.
    pub fn new(remaining: &'s str, data: T) -> (res: Self)
        ensures
            res.r == remaining,
            res.d == data,
    {
        Remaining { r: remaining, d: data }
    }
}

/// A result read at a position of a window that ends at `hi`, as the text
/// that is left and the value.
pub open spec fn opt_rest<T>(s: Seq<char>, hi: int, r: Option<(usize, T)>) -> Option<(Seq<char>, T)> {
    match r {
        Some((p, d)) => Some((s.subrange(p as int, hi), d)),
        None => None,
    }
}

/// A decimal digit.
pub open spec fn is_digit(c: char) -> bool {
    '0' <= c <= '9'
}

/// A hexadecimal digit, in either case.
pub open spec fn is_hex_digit(c: char) -> bool {
    is_digit(c) || ('a' <= c <= 'f') || ('A' <= c <= 'F')
}

/// The value of a decimal digit.
pub open spec fn digit_value(c: char) -> nat {
    (c as int - '0' as int) as nat
}

/// The value of a hexadecimal digit.
pub open spec fn hex_digit_value(c: char) -> nat {
    if is_digit(c) {
        digit_value(c)
    } else if 'a' <= c <= 'f' {
        (c as int - 'a' as int + 10) as nat
    } else {
        (c as int - 'A' as int + 10) as nat
    }
}

/// The number of decimal digits at the start of `t`.
pub open spec fn digit_run(t: Seq<char>) -> nat
    decreases t.len(),
{
    if t.len() > 0 && is_digit(t[0]) {
        1 + digit_run(t.drop_first())
    } else {
        0
    }
}

/// The number of hexadecimal digits at the start of `t`.
pub open spec fn hex_run(t: Seq<char>) -> nat
    decreases t.len(),
{
    if t.len() > 0 && is_hex_digit(t[0]) {
        1 + hex_run(t.drop_first())
    } else {
        0
    }
}

/// The value of the decimal digits `d`.
pub open spec fn dec_value(d: Seq<char>) -> nat
    decreases d.len(),
{
    if d.len() == 0 {
        0
    } else {
        dec_value(d.drop_last()) * 10 + digit_value(d.last())
    }
}

/// The value of the hexadecimal digits `d`.
pub open spec fn hex_value(d: Seq<char>) -> nat
    decreases d.len(),
{
    if d.len() == 0 {
        0
    } else {
        hex_value(d.drop_last()) * 16 + hex_digit_value(d.last())
    }
}

/// Decimal digits as a `usize`: none when there are no digits or the value
/// does not fit.
pub open spec fn parse_dec(d: Seq<char>) -> Option<usize> {
    if d.len() == 0 || dec_value(d) > usize::MAX {
        None
    } else {
        Some(dec_value(d) as usize)
    }
}

/// Hexadecimal digits as a `usize`: none when there are no digits or the
/// value does not fit.
pub open spec fn parse_hex(d: Seq<char>) -> Option<usize> {
    if d.len() == 0 || hex_value(d) > usize::MAX {
        None
    } else {
        Some(hex_value(d) as usize)
    }
}

/// The decimal number at the start of `t`.
pub open spec fn parse_number(t: Seq<char>) -> Option<(Seq<char>, usize)> {
    let n = digit_run(t);
    match parse_dec(t.take(n as int)) {
        Some(v) => Some((t.skip(n as int), v)),
        None => None,
    }
}

/// The hexadecimal number at the start of `t`.
pub open spec fn parse_hex_number(t: Seq<char>) -> Option<(Seq<char>, usize)> {
    let n = hex_run(t);
    match parse_hex(t.take(n as int)) {
        Some(v) => Some((t.skip(n as int), v)),
        None => None,
    }
}

/// The single decimal digit at the start of `t`.
pub open spec fn parse_digit(t: Seq<char>) -> Option<(Seq<char>, usize)> {
    if t.len() > 0 && is_digit(t[0]) {
        Some((t.skip(1), digit_value(t[0]) as usize))
    } else {
        None
    }
}

/// Either a single digit followed by a non-digit, or several digits
/// followed by an underscore, which is consumed too.
pub open spec fn parse_number_maybe_multi_digit(t: Seq<char>) -> Option<(Seq<char>, usize)> {
    if t.len() == 0 {
        None
    } else if t.len() == 1 {
        parse_digit(t)
    } else {
        let n = digit_run(t);
        if n < t.len() {
            if n == 0 {
                None
            } else if t[n as int] == '_' {
                let new_start = if n > 1 { n + 1 } else { n };
                match parse_dec(t.take(n as int)) {
                    Some(v) => Some((t.skip(new_start as int), v)),
                    None => None,
                }
            } else {
                parse_digit(t)
            }
        } else {
            parse_digit(t)
        }
    }
}

/// The first character of `t`.
pub open spec fn parse_first(t: Seq<char>) -> Option<(Seq<char>, char)> {
    if t.len() > 0 {
        Some((t.skip(1), t[0]))
    } else {
        None
    }
}

/// The leading digits of a text lie within it.
pub proof fn lemma_digit_run_bound(t: Seq<char>)
    ensures
        digit_run(t) <= t.len(),
        forall|k: int| 0 <= k < digit_run(t) ==> is_digit(#[trigger] t[k]),
    decreases t.len(),
{
    if t.len() > 0 && is_digit(t[0]) {
        lemma_digit_run_bound(t.drop_first());
        assert forall|k: int| 0 <= k < digit_run(t) implies is_digit(#[trigger] t[k]) by {
            if k > 0 {
                assert(t[k] == t.drop_first()[k - 1]);
            }
        }
    }
}

/// The leading hexadecimal digits of a text lie within it.
pub proof fn lemma_hex_run_bound(t: Seq<char>)
    ensures
        hex_run(t) <= t.len(),
    decreases t.len(),
{
    if t.len() > 0 && is_hex_digit(t[0]) {
        lemma_hex_run_bound(t.drop_first());
    }
}

proof fn lemma_digit_run_exact(t: Seq<char>, m: int)
    requires
        0 <= m <= t.len(),
        forall|k: int| 0 <= k < m ==> is_digit(#[trigger] t[k]),
        m == t.len() || !is_digit(t[m]),
    ensures
        digit_run(t) == m,
    decreases m,
{
    if m > 0 {
        assert(is_digit(t[0]));
        let u = t.drop_first();
        assert forall|k: int| 0 <= k < m - 1 implies is_digit(#[trigger] u[k]) by {
            assert(u[k] == t[k + 1]);
        }
        lemma_digit_run_exact(u, m - 1);
    }
}

proof fn lemma_hex_run_exact(t: Seq<char>, m: int)
    requires
        0 <= m <= t.len(),
        forall|k: int| 0 <= k < m ==> is_hex_digit(#[trigger] t[k]),
        m == t.len() || !is_hex_digit(t[m]),
    ensures
        hex_run(t) == m,
    decreases m,
{
    if m > 0 {
        assert(is_hex_digit(t[0]));
        let u = t.drop_first();
        assert forall|k: int| 0 <= k < m - 1 implies is_hex_digit(#[trigger] u[k]) by {
            assert(u[k] == t[k + 1]);
        }
        lemma_hex_run_exact(u, m - 1);
    }
}

fn exec_is_digit(c: char) -> (b: bool)
    ensures
        b == is_digit(c),
{
    '0' <= c && c <= '9'
}

fn exec_is_hex_digit(c: char) -> (b: bool)
    ensures
        b == is_hex_digit(c),
{
    ('0' <= c && c <= '9') || ('a' <= c && c <= 'f') || ('A' <= c && c <= 'F')
}

fn exec_digit_value(c: char) -> (v: usize)
    requires
        is_digit(c),
    ensures
        v == digit_value(c),
{
    (c as u32 - '0' as u32) as usize
}

fn exec_hex_digit_value(c: char) -> (v: usize)
    requires
        is_hex_digit(c),
    ensures
        v == hex_digit_value(c),
        v < 16,
{
    if '0' <= c && c <= '9' {
        (c as u32 - '0' as u32) as usize
    } else if 'a' <= c && c <= 'f' {
        (c as u32 - 'a' as u32 + 10) as usize
    } else {
        (c as u32 - 'A' as u32 + 10) as usize
    }
}

/// The end of the run of decimal digits that starts at `lo`.
pub fn digit_span(inp: &Input, lo: usize, hi: usize) -> (k: usize)
    requires
        inp.wf(),
        lo <= hi <= inp@.len(),
    ensures
        lo <= k <= hi,
        k - lo == digit_run(inp@.subrange(lo as int, hi as int)),
{
    let ghost t = inp@.subrange(lo as int, hi as int);
    let mut k = lo;
    while k < hi && exec_is_digit(inp.at(k))
        invariant
            inp.wf(),
            lo <= k <= hi <= inp@.len(),
            t == inp@.subrange(lo as int, hi as int),
            forall|j: int| 0 <= j < k - lo ==> is_digit(#[trigger] t[j]),
        decreases hi - k,
    {
        k = k + 1;
    }
    proof {
        lemma_digit_run_exact(t, k - lo);
    }
    k
}

/// The value of the decimal digits between `lo` and `k`.
pub fn dec_parse(inp: &Input, lo: usize, k: usize) -> (r: Option<usize>)
    requires
        inp.wf(),
        lo <= k <= inp@.len(),
        forall|j: int| lo <= j < k ==> is_digit(#[trigger] inp@[j]),
    ensures
        r == parse_dec(inp@.subrange(lo as int, k as int)),
{
    let mut v: usize = 0;
    let mut overflow = false;
    let mut i = lo;
    while i < k
        invariant
            inp.wf(),
            lo <= i <= k <= inp@.len(),
            forall|j: int| lo <= j < k ==> is_digit(#[trigger] inp@[j]),
            !overflow ==> v == dec_value(inp@.subrange(lo as int, i as int)),
            overflow ==> dec_value(inp@.subrange(lo as int, i as int)) > usize::MAX,
        decreases k - i,
    {
        let c = inp.at(i);
        let d = exec_digit_value(c);
        let ghost prev = inp@.subrange(lo as int, i as int);
        assert(inp@.subrange(lo as int, i + 1).drop_last() =~= prev);
        if !overflow {
            match v.checked_mul(10) {
                Some(m) => match m.checked_add(d) {
                    Some(a) => {
                        v = a;
                    },
                    None => {
                        overflow = true;
                    },
                },
                None => {
                    overflow = true;
                },
            }
        }
        i = i + 1;
    }
    if i == lo || overflow {
        None
    } else {
        Some(v)
    }
}

/// The value of the hexadecimal digits between `lo` and `k`.
fn hex_parse(inp: &Input, lo: usize, k: usize) -> (r: Option<usize>)
    requires
        inp.wf(),
        lo <= k <= inp@.len(),
        forall|j: int| lo <= j < k ==> is_hex_digit(#[trigger] inp@[j]),
    ensures
        r == parse_hex(inp@.subrange(lo as int, k as int)),
{
    let mut v: usize = 0;
    let mut overflow = false;
    let mut i = lo;
    while i < k
        invariant
            inp.wf(),
            lo <= i <= k <= inp@.len(),
            forall|j: int| lo <= j < k ==> is_hex_digit(#[trigger] inp@[j]),
            !overflow ==> v == hex_value(inp@.subrange(lo as int, i as int)),
            overflow ==> hex_value(inp@.subrange(lo as int, i as int)) > usize::MAX,
        decreases k - i,
    {
        let c = inp.at(i);
        let d = exec_hex_digit_value(c);
        let ghost prev = inp@.subrange(lo as int, i as int);
        assert(inp@.subrange(lo as int, i + 1).drop_last() =~= prev);
        if !overflow {
            match v.checked_mul(16) {
                Some(m) => match m.checked_add(d) {
                    Some(a) => {
                        v = a;
                    },
                    None => {
                        overflow = true;
                    },
                },
                None => {
                    overflow = true;
                },
            }
        }
        i = i + 1;
    }
    if i == lo || overflow {
        None
    } else {
        Some(v)
    }
}

/// Reads the decimal number at the start of the window `lo..hi`.
pub fn p_number(inp: &Input, lo: usize, hi: usize) -> (r: Option<(usize, usize)>)
    requires
        inp.wf(),
        lo <= hi <= inp@.len(),
    ensures
        opt_rest(inp@, hi as int, r) == parse_number(inp@.subrange(lo as int, hi as int)),
        r matches Some((p, _)) ==> lo < p <= hi,
{
    let ghost t = inp@.subrange(lo as int, hi as int);
    let k = digit_span(inp, lo, hi);
    proof {
        lemma_digit_run_bound(t);
        assert forall|j: int| lo <= j < k implies is_digit(#[trigger] inp@[j]) by {
            assert(inp@[j] == t[j - lo]);
        }
        assert(t.take(k - lo) =~= inp@.subrange(lo as int, k as int));
        assert(t.skip(k - lo) =~= inp@.subrange(k as int, hi as int));
    }
    match dec_parse(inp, lo, k) {
        Some(v) => Some((k, v)),
        None => None,
    }
}

/// Reads the hexadecimal number at the start of the window `lo..hi`.
pub fn p_hex_number(inp: &Input, lo: usize, hi: usize) -> (r: Option<(usize, usize)>)
    requires
        inp.wf(),
        lo <= hi <= inp@.len(),
    ensures
        opt_rest(inp@, hi as int, r) == parse_hex_number(inp@.subrange(lo as int, hi as int)),
        r matches Some((p, _)) ==> lo < p <= hi,
{
    let ghost t = inp@.subrange(lo as int, hi as int);
    let mut k = lo;
    while k < hi && exec_is_hex_digit(inp.at(k))
        invariant
            inp.wf(),
            lo <= k <= hi <= inp@.len(),
            t == inp@.subrange(lo as int, hi as int),
            forall|j: int| 0 <= j < k - lo ==> is_hex_digit(#[trigger] t[j]),
        decreases hi - k,
    {
        k = k + 1;
    }
    proof {
        lemma_hex_run_exact(t, k - lo);
        assert forall|j: int| lo <= j < k implies is_hex_digit(#[trigger] inp@[j]) by {
            assert(inp@[j] == t[j - lo]);
        }
        assert(t.take(k - lo) =~= inp@.subrange(lo as int, k as int));
        assert(t.skip(k - lo) =~= inp@.subrange(k as int, hi as int));
    }
    match hex_parse(inp, lo, k) {
        Some(v) => Some((k, v)),
        None => None,
    }
}

/// Reads a single decimal digit at the start of the window `lo..hi`.
pub fn p_digit(inp: &Input, lo: usize, hi: usize) -> (r: Option<(usize, usize)>)
    requires
        inp.wf(),
        lo <= hi <= inp@.len(),
    ensures
        opt_rest(inp@, hi as int, r) == parse_digit(inp@.subrange(lo as int, hi as int)),
        r matches Some((p, _)) ==> p == lo + 1 && p <= hi,
{
    if lo < hi {
        let c = inp.at(lo);
        if exec_is_digit(c) {
            assert(inp@.subrange(lo as int, hi as int).skip(1) =~= inp@.subrange(lo + 1, hi as int));
            return Some((lo + 1, exec_digit_value(c)));
        }
    }
    None
}

/// Reads either a single digit followed by a non-digit, or several digits
/// followed by an underscore, at the start of the window `lo..hi`.
pub fn p_number_maybe_multi_digit_in(inp: &Input, lo: usize, hi: usize) -> (r: Option<(usize, usize)>)
    requires
        inp.wf(),
        lo <= hi <= inp@.len(),
    ensures
        opt_rest(inp@, hi as int, r) == parse_number_maybe_multi_digit(inp@.subrange(lo as int, hi as int)),
        r matches Some((p, _)) ==> lo < p <= hi,
{
    let ghost t = inp@.subrange(lo as int, hi as int);
    if lo == hi {
        None
    } else if hi - lo == 1 {
        p_digit(inp, lo, hi)
    } else {
        let k = digit_span(inp, lo, hi);
        proof {
            lemma_digit_run_bound(t);
        }
        if k < hi {
            if k == lo {
                None
            } else if inp.at(k) == '_' {
                let new_start = if k - lo > 1 { k + 1 } else { k };
                proof {
                    assert forall|j: int| lo <= j < k implies is_digit(#[trigger] inp@[j]) by {
                        assert(inp@[j] == t[j - lo]);
                    }
                    assert(t.take(k - lo) =~= inp@.subrange(lo as int, k as int));
                    assert(t.skip(new_start - lo) =~= inp@.subrange(new_start as int, hi as int));
                }
                match dec_parse(inp, lo, k) {
                    Some(v) => Some((new_start, v)),
                    None => None,
                }
            } else {
                p_digit(inp, lo, hi)
            }
        } else {
            p_digit(inp, lo, hi)
        }
    }
}

/// Reads the first character of the window `lo..hi`.
pub fn p_first(inp: &Input, lo: usize, hi: usize) -> (r: Option<(usize, char)>)
    requires
        inp.wf(),
        lo <= hi <= inp@.len(),
    ensures
        opt_rest(inp@, hi as int, r) == parse_first(inp@.subrange(lo as int, hi as int)),
        r matches Some((p, _)) ==> p == lo + 1 && p <= hi,
{
    if lo < hi {
        assert(inp@.subrange(lo as int, hi as int).skip(1) =~= inp@.subrange(lo + 1, hi as int));
        Some((lo + 1, inp.at(lo)))
    } else {
        None
    }
}

/// Reads either a single digit followed by a non-digit, or several digits
/// followed by an underscore, at the start of `s`.
pub fn p_number_maybe_multi_digit(s: &str) -> (res: Option<Remaining<'_, usize>>)
    ensures
        match parse_number_maybe_multi_digit(s@) {
            Some((r, d)) => res matches Some(x) && x.r@ == r && x.d == d,
            None => res is None,
        },
{
    let inp = Input::from_str(s);
    let n = inp.len();
    assert(s@.subrange(0, n as int) =~= s@);
    match p_number_maybe_multi_digit_in(&inp, 0, n) {
        Some((p, d)) => Some(Remaining::new(inp.slice(p, n), d)),
        None => None,
    }
}

} // verus!
