//! Read access to the symbol being demangled.
use vstd::prelude::*;
use vstd::string::*;

verus! {

broadcast use vstd::string::group_string_axioms;

/// The symbol under demangling: its text and its characters.
pub struct Input<'s> {
    pub sym: &'s str,
    pub chars: Vec<char>,
}

impl<'s> Input<'s> {
    /// `chars` holds the characters of `sym`.
    pub open spec fn wf(&self) -> bool {
        self.chars@ == self.sym@
    }

    /// The characters of the symbol.
    pub open spec fn view(&self) -> Seq<char> {
        self.sym@
    }

    /// Reads the characters of an ASCII symbol from its bytes.
    pub fn from_ascii(sym: &'s str) -> (res: Input<'s>)
        requires
            sym.is_ascii(),
        ensures
            res.wf(),
            res.sym == sym,
    {
        let bytes = sym.as_bytes();
        proof {
            is_ascii_spec_bytes(sym);
        }
        let n = bytes.len();
        let mut chars: Vec<char> = Vec::with_capacity(n);
        for i in 0..n
            invariant
                n == bytes@.len(),
                bytes@ == sym.spec_bytes(),
                sym.spec_bytes() =~= Seq::new(sym@.len(), |j| sym@.index(j) as u8),
                is_ascii(sym),
                chars@ == sym@.take(i as int),
        {
            proof {
                let c = sym@[i as int];
                assert('\0' <= c <= '\u{7f}');
            }
            chars.push(bytes[i] as char);
            assert(chars@ =~= sym@.take(i + 1));
        }
        assert(sym@.take(n as int) =~= sym@);
        Input { sym, chars }
    }

    /// Reads the characters of any symbol.
    pub fn from_str(sym: &'s str) -> (res: Input<'s>)
        ensures
            res.wf(),
            res.sym == sym,
    {
        let n = sym.unicode_len();
        let mut chars: Vec<char> = Vec::with_capacity(n);
        for i in 0..n
            invariant
                n == sym@.len(),
                chars@ == sym@.take(i as int),
        {
            chars.push(sym.get_char(i));
            assert(chars@ =~= sym@.take(i + 1));
        }
        assert(sym@.take(n as int) =~= sym@);
        Input { sym, chars }
    }

    /// The number of characters of the symbol.
    pub fn len(&self) -> (n: usize)
        requires
            self.wf(),
        ensures
            n == self@.len(),
    {
        self.chars.len()
    }

    /// The character at position `i`.
    pub fn at(&self, i: usize) -> (c: char)
        requires
            self.wf(),
            i < self@.len(),
        ensures
            c == self@[i as int],
    {
        self.chars[i]
    }

    /// The part of the symbol between `lo` and `hi`.
    pub fn slice(&self, lo: usize, hi: usize) -> (r: &'s str)
        requires
            self.wf(),
            lo <= hi <= self@.len(),
        ensures
            r@ == self@.subrange(lo as int, hi as int),
    {
        self.sym.substring_char(lo, hi)
    }

    /// The characters between `lo` and `hi`, copied.
    pub fn text(&self, lo: usize, hi: usize) -> (r: Vec<char>)
        requires
            self.wf(),
            lo <= hi <= self@.len(),
        ensures
            r@ == self@.subrange(lo as int, hi as int),
    {
        let mut r: Vec<char> = Vec::new();
        let mut i = lo;
        while i < hi
            invariant
                self.wf(),
                lo <= i <= hi <= self@.len(),
                r@ == self@.subrange(lo as int, i as int),
            decreases hi - i,
        {
            r.push(self.chars[i]);
            i = i + 1;
            assert(r@ =~= self@.subrange(lo as int, i as int));
        }
        r
    }

    /// Whether the window `lo..hi` starts with `lit`.
    pub fn starts_with(&self, lo: usize, hi: usize, lit: &str) -> (b: bool)
        requires
            self.wf(),
            lo <= hi <= self@.len(),
        ensures
            b == starts_with(self@.subrange(lo as int, hi as int), lit@),
    {
        let n = lit.unicode_len();
        if n > hi - lo {
            return false;
        }
        let mut j: usize = 0;
        while j < n
            invariant
                self.wf(),
                lo <= hi <= self@.len(),
                n == lit@.len(),
                n <= hi - lo,
                j <= n,
                forall|k: int| 0 <= k < j ==> self@[lo + k] == lit@[k],
            decreases n - j,
        {
            if self.chars[lo + j] != lit.get_char(j) {
                return false;
            }
            j = j + 1;
        }
        assert(self@.subrange(lo as int, hi as int).take(n as int) =~= lit@);
        true
    }
}

/// Dropping `k` characters from a window moves its start by `k`.
pub proof fn lemma_skip(s: Seq<char>, lo: int, hi: int, k: int)
    requires
        0 <= lo,
        0 <= k,
        lo + k <= hi <= s.len(),
    ensures
        s.subrange(lo, hi).skip(k) == s.subrange(lo + k, hi),
{
    assert(s.subrange(lo, hi).skip(k) =~= s.subrange(lo + k, hi));
}

/// Whether `t` begins with `p`.
pub open spec fn starts_with(t: Seq<char>, p: Seq<char>) -> bool {
    p.len() <= t.len() && t.take(p.len() as int) == p
}

} // verus!
