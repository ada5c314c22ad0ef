//! Building demangled text out of characters.
use vstd::prelude::*;

verus! {

/// Appends the characters of `lit` to `out`.
pub fn push_lit(out: &mut Vec<char>, lit: &str)
    ensures
        final(out)@ == old(out)@ + lit@,
{
    let n = lit.unicode_len();
    let ghost start = out@;
    for i in 0..n
        invariant
            n == lit@.len(),
            out@ == start + lit@.take(i as int),
    {
        out.push(lit.get_char(i));
        assert(out@ =~= start + lit@.take(i + 1));
    }
    assert(lit@.take(n as int) =~= lit@);
}

/// The characters of `lit`.
pub fn lit(l: &str) -> (r: Vec<char>)
    ensures
        r@ == l@,
{
    let mut r = Vec::new();
    push_lit(&mut r, l);
    assert(r@ =~= l@);
    r
}

/// Appends the characters of `other` to `out`.
pub fn push_text(out: &mut Vec<char>, other: &Vec<char>)
    ensures
        final(out)@ == old(out)@ + other@,
{
    let ghost start = out@;
    let n = other.len();
    for i in 0..n
        invariant
            n == other@.len(),
            out@ == start + other@.take(i as int),
    {
        out.push(other[i]);
        assert(out@ =~= start + other@.take(i + 1));
    }
    assert(other@.take(n as int) =~= other@);
}

/// `a` followed by `b`.
pub fn concat(a: &Vec<char>, b: &Vec<char>) -> (r: Vec<char>)
    ensures
        r@ == a@ + b@,
{
    let mut r = a.clone();
    push_text(&mut r, b);
    r
}

/// Whether two texts are equal.
pub fn text_eq(a: &Vec<char>, b: &Vec<char>) -> (r: bool)
    ensures
        r == (a@ == b@),
{
    if a.len() != b.len() {
        return false;
    }
    let n = a.len();
    for i in 0..n
        invariant
            n == a@.len(),
            n == b@.len(),
            forall|k: int| 0 <= k < i ==> a@[k] == b@[k],
    {
        if a[i] != b[i] {
            return false;
        }
    }
    assert(a@ =~= b@);
    true
}

/// The decimal digit character for `d`.
pub open spec fn digit_char(d: nat) -> char {
    if d == 0 { '0' }
    else if d == 1 { '1' }
    else if d == 2 { '2' }
    else if d == 3 { '3' }
    else if d == 4 { '4' }
    else if d == 5 { '5' }
    else if d == 6 { '6' }
    else if d == 7 { '7' }
    else if d == 8 { '8' }
    else { '9' }
}

/// The decimal representation of `n`, without leading zeros.
pub open spec fn dec_text(n: nat) -> Seq<char>
    decreases n,
{
    if n < 10 {
        seq![digit_char(n)]
    } else {
        dec_text(n / 10).push(digit_char(n % 10))
    }
}

fn exec_digit_char(d: u128) -> (c: char)
    requires
        d < 10,
    ensures
        c == digit_char(d as nat),
{
    if d == 0 { '0' }
    else if d == 1 { '1' }
    else if d == 2 { '2' }
    else if d == 3 { '3' }
    else if d == 4 { '4' }
    else if d == 5 { '5' }
    else if d == 6 { '6' }
    else if d == 7 { '7' }
    else if d == 8 { '8' }
    else { '9' }
}

/// Appends the decimal representation of `n` to `out`.
pub fn push_dec(out: &mut Vec<char>, n: u128)
    ensures
        final(out)@ == old(out)@ + dec_text(n as nat),
    decreases n,
{
    if n < 10 {
        out.push(exec_digit_char(n));
        assert(dec_text(n as nat) =~= seq![digit_char(n as nat)]);
    } else {
        push_dec(out, n / 10);
        out.push(exec_digit_char(n % 10));
        assert(dec_text(n as nat) == dec_text((n / 10) as nat).push(digit_char((n % 10) as nat)));
    }
}

/// Whether the last character of `t` is `c`.
pub open spec fn ends_with_char(t: Seq<char>, c: char) -> bool {
    t.len() > 0 && t.last() == c
}

/// `t` without its leading spaces.
pub open spec fn trim_start_spaces(t: Seq<char>) -> Seq<char>
    decreases t.len(),
{
    if t.len() > 0 && t[0] == ' ' {
        trim_start_spaces(t.drop_first())
    } else {
        t
    }
}

/// `t` without its trailing spaces.
pub open spec fn trim_end_spaces(t: Seq<char>) -> Seq<char>
    decreases t.len(),
{
    if t.len() > 0 && t.last() == ' ' {
        trim_end_spaces(t.drop_last())
    } else {
        t
    }
}

/// `t` without its leading and trailing spaces.
pub open spec fn trim_spaces(t: Seq<char>) -> Seq<char> {
    trim_end_spaces(trim_start_spaces(t))
}

/// Appends `t` to `out`, without its leading and trailing spaces.
pub fn push_trimmed(out: &mut Vec<char>, t: &Vec<char>)
    ensures
        final(out)@ == old(out)@ + trim_spaces(t@),
{
    let n = t.len();
    let mut lo: usize = 0;
    assert(t@.subrange(0, n as int) =~= t@);
    while lo < n && t[lo] == ' '
        invariant
            n == t@.len(),
            lo <= n,
            trim_start_spaces(t@.subrange(lo as int, n as int)) == trim_start_spaces(t@),
        decreases n - lo,
    {
        assert(t@.subrange(lo as int, n as int).drop_first() =~= t@.subrange(lo + 1, n as int));
        lo = lo + 1;
    }
    let mut hi: usize = n;
    while hi > lo && t[hi - 1] == ' '
        invariant
            n == t@.len(),
            lo <= hi <= n,
            trim_end_spaces(t@.subrange(lo as int, hi as int)) == trim_spaces(t@),
        decreases hi,
    {
        assert(t@.subrange(lo as int, hi as int).drop_last() =~= t@.subrange(lo as int, hi - 1));
        hi = hi - 1;
    }
    let ghost start = out@;
    let mut i = lo;
    while i < hi
        invariant
            n == t@.len(),
            lo <= i <= hi <= n,
            out@ == start + t@.subrange(lo as int, i as int),
        decreases hi - i,
    {
        out.push(t[i]);
        i = i + 1;
        assert(out@ =~= start + t@.subrange(lo as int, i as int));
    }
}

/// The texts of `list`, with `sep` between each two of them.
pub open spec fn join_sep(list: Seq<Seq<char>>, sep: Seq<char>) -> Seq<char>
    decreases list.len(),
{
    if list.len() == 0 {
        seq![]
    } else if list.len() == 1 {
        list[0]
    } else {
        join_sep(list.drop_last(), sep) + sep + list.last()
    }
}

/// The texts of `list`, with `sep` between each two of them.
pub fn join_texts(list: &Vec<Vec<char>>, sep: &str) -> (r: Vec<char>)
    ensures
        r@ == join_sep(list@.map_values(|v: Vec<char>| v@), sep@),
{
    let ghost views = list@.map_values(|v: Vec<char>| v@);
    let mut r: Vec<char> = Vec::new();
    let n = list.len();
    for i in 0..n
        invariant
            n == list@.len(),
            views == list@.map_values(|v: Vec<char>| v@),
            r@ == join_sep(views.take(i as int), sep@),
    {
        if i != 0 {
            push_lit(&mut r, sep);
        }
        push_text(&mut r, &list[i]);
        assert(views.take(i + 1).drop_last() =~= views.take(i as int));
    }
    assert(views.take(n as int) =~= views);
    r
}

} // verus!
