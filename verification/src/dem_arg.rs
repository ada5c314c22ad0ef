//! Demangling of a single argument type.
use vstd::prelude::*;

use crate::dem::{consumed, custom_name, custom_name_in, lift, make_name_err, name_err, no_progress, NameKind};
use crate::dem_arg_list::{arg_list_impl, demangle_argument_list_impl, av_get, av_join, av_new, ArgVec, ArgVecV};
use crate::dem_namespace::{demangle_namespaces, namespaces};
use crate::dem_template::{demangle_template, template};
use crate::demangle_config::DemangleConfig;
use crate::demangle_error::{not_non_ascii, DemErr, DemangleError};
use crate::input::{lemma_skip, Input};
use crate::remainer::{
    lemma_digit_run_bound, p_digit, p_hex_number, p_number, p_number_maybe_multi_digit_in, parse_digit,
    parse_hex_number, parse_number, parse_number_maybe_multi_digit,
};
use crate::str_cutter::{c_maybe_strip_prefix, maybe_strip_prefix};
use crate::text::{concat, dec_text, ends_with_char, lit, push_dec, push_lit, push_text, push_trimmed, text_eq, trim_spaces};

verus! {

/// A `signed` or `unsigned` qualifier.
#[derive(Debug, Clone, Copy, PartialEq, Eq, Structural)]
pub enum Signedness {
    No,
    Signed,
    Unsigned,
}

impl View for Signedness {
    type V = Signedness;

    open spec fn view(&self) -> Signedness {
        *self
    }
}

/// The text of a signedness qualifier.
pub open spec fn sign_text(s: Signedness) -> Seq<char> {
    match s {
        Signedness::No => ""@,
        Signedness::Signed => "signed "@,
        Signedness::Unsigned => "unsigned "@,
    }
}

/// Appends the text of a signedness to `out`.
pub fn push_sign(out: &mut Vec<char>, s: Signedness)
    ensures
        final(out)@ == old(out)@ + sign_text(s),
{
    match s {
        Signedness::No => push_lit(out, ""),
        Signedness::Signed => push_lit(out, "signed "),
        Signedness::Unsigned => push_lit(out, "unsigned "),
    }
}

/// The array part of a type: the qualifiers of what points to the arrays
/// and the array dimensions.
pub struct ArrayQualifiers {
    pub inner_post_qualifiers: Vec<char>,
    pub arrays: Vec<char>,
}

/// Array qualifiers as text.
pub ghost struct ArrayQualifiersV {
    pub inner: Seq<char>,
    pub arrays: Seq<char>,
}

impl View for ArrayQualifiers {
    type V = ArrayQualifiersV;

    open spec fn view(&self) -> ArrayQualifiersV {
        ArrayQualifiersV { inner: self.inner_post_qualifiers@, arrays: self.arrays@ }
    }
}

/// Optional array qualifiers as text.
pub open spec fn opt_aq_view(o: Option<ArrayQualifiers>) -> Option<ArrayQualifiersV> {
    match o {
        Some(a) => Some(a@),
        None => None,
    }
}

/// The text of array qualifiers after a type: ` (inner)[..]`.
pub open spec fn aq_text(a: ArrayQualifiersV) -> Seq<char> {
    " "@ + (if a.inner.len() > 0 { "("@ + a.inner + ")"@ } else { seq![] }) + a.arrays
}

/// The text of optional array qualifiers; nothing when there are none.
pub open spec fn opt_aq_text(o: Option<ArrayQualifiersV>) -> Seq<char> {
    match o {
        Some(a) => aq_text(a),
        None => seq![],
    }
}

impl ArrayQualifiers {
    /// A copy of these array qualifiers.
    pub fn clone_aq(&self) -> (r: ArrayQualifiers)
        ensures
            r@ == self@,
    {
        ArrayQualifiers { inner_post_qualifiers: self.inner_post_qualifiers.clone(), arrays: self.arrays.clone() }
    }

    /// Appends the text of these array qualifiers to `out`.
    pub fn push_text(&self, out: &mut Vec<char>)
        ensures
            final(out)@ == old(out)@ + aq_text(self@),
    {
        push_lit(out, " ");
        if self.inner_post_qualifiers.len() > 0 {
            push_lit(out, "(");
            push_text(out, &self.inner_post_qualifiers);
            push_lit(out, ")");
        }
        push_text(out, &self.arrays);
    }
}

/// Appends the text of optional array qualifiers to `out`.
pub fn push_opt_aq(out: &mut Vec<char>, o: &Option<ArrayQualifiers>)
    ensures
        final(out)@ == old(out)@ + opt_aq_text(opt_aq_view(*o)),
{
    match o {
        Some(a) => a.push_text(out),
        None => {},
    }
}

/// A pointer or reference to a function.
pub struct FunctionPointer {
    pub return_type: Vec<char>,
    pub array_qualifiers: Option<ArrayQualifiers>,
    pub post_qualifiers: Vec<char>,
    pub args: Vec<char>,
}

/// A function pointer as text.
pub ghost struct FunctionPointerV {
    pub return_type: Seq<char>,
    pub array_qualifiers: Option<ArrayQualifiersV>,
    pub post_qualifiers: Seq<char>,
    pub args: Seq<char>,
}

impl View for FunctionPointer {
    type V = FunctionPointerV;

    open spec fn view(&self) -> FunctionPointerV {
        FunctionPointerV {
            return_type: self.return_type@,
            array_qualifiers: opt_aq_view(self.array_qualifiers),
            post_qualifiers: self.post_qualifiers@,
            args: self.args@,
        }
    }
}

/// A pointer to a method.
pub struct MethodPointer {
    pub return_type: Vec<char>,
    pub array_qualifiers: Option<ArrayQualifiers>,
    pub class: Vec<char>,
    pub post_qualifiers: Vec<char>,
    pub args: Vec<char>,
    pub is_const_method: bool,
}

/// A method pointer as text.
pub ghost struct MethodPointerV {
    pub return_type: Seq<char>,
    pub array_qualifiers: Option<ArrayQualifiersV>,
    pub class: Seq<char>,
    pub post_qualifiers: Seq<char>,
    pub args: Seq<char>,
    pub is_const_method: bool,
}

impl View for MethodPointer {
    type V = MethodPointerV;

    open spec fn view(&self) -> MethodPointerV {
        MethodPointerV {
            return_type: self.return_type@,
            array_qualifiers: opt_aq_view(self.array_qualifiers),
            class: self.class@,
            post_qualifiers: self.post_qualifiers@,
            args: self.args@,
            is_const_method: self.is_const_method,
        }
    }
}

/// The part of a function or method pointer's text that leads up to the
/// parenthesized qualifiers: the return type, and the opening of the
/// array syntax when the return type is a pointer to arrays.
pub open spec fn pointer_text_head(return_type: Seq<char>, aq: Option<ArrayQualifiersV>) -> Seq<char> {
    match aq {
        Some(arr) => return_type + " "@ + (if arr.inner.len() > 0 { "("@ + arr.inner } else { seq![] }),
        None => return_type + (if !(ends_with_char(return_type, '*') || ends_with_char(return_type, '&')) {
            " "@
        } else {
            seq![]
        }),
    }
}

/// The part of a function or method pointer's text that closes the array
/// syntax of its return type.
pub open spec fn pointer_text_tail(aq: Option<ArrayQualifiersV>) -> Seq<char> {
    match aq {
        Some(arr) => (if arr.inner.len() > 0 { ")"@ } else { seq![] }) + arr.arrays,
        None => seq![],
    }
}

/// The text of a function pointer: `ret (post)(args)`, with the array
/// syntax of its return type around it.
pub open spec fn fp_text(fp: FunctionPointerV) -> Seq<char> {
    pointer_text_head(fp.return_type, fp.array_qualifiers) + "("@ + trim_spaces(fp.post_qualifiers) + ")"@
        + "("@ + fp.args + ")"@ + pointer_text_tail(fp.array_qualifiers)
}

/// The text of a method pointer: `ret (class::post)(args) const`, with the
/// array syntax of its return type around it.
pub open spec fn mp_text(mp: MethodPointerV) -> Seq<char> {
    pointer_text_head(mp.return_type, mp.array_qualifiers) + "("@ + mp.class + "::"@ + trim_spaces(mp.post_qualifiers) + ")"@
        + "("@ + mp.args + ")"@ + (if mp.is_const_method { " const"@ } else { seq![] })
        + pointer_text_tail(mp.array_qualifiers)
}

fn push_pointer_head(out: &mut Vec<char>, return_type: &Vec<char>, aq: &Option<ArrayQualifiers>)
    ensures
        final(out)@ == old(out)@ + pointer_text_head(return_type@, opt_aq_view(*aq)),
{
    push_text(out, return_type);
    match aq {
        Some(arr) => {
            push_lit(out, " ");
            if arr.inner_post_qualifiers.len() > 0 {
                push_lit(out, "(");
                push_text(out, &arr.inner_post_qualifiers);
            }
        },
        None => {
            let n = return_type.len();
            let ends = n > 0 && (return_type[n - 1] == '*' || return_type[n - 1] == '&');
            if !ends {
                push_lit(out, " ");
            }
        },
    }
}

fn push_pointer_tail(out: &mut Vec<char>, aq: &Option<ArrayQualifiers>)
    ensures
        final(out)@ == old(out)@ + pointer_text_tail(opt_aq_view(*aq)),
{
    match aq {
        Some(arr) => {
            if arr.inner_post_qualifiers.len() > 0 {
                push_lit(out, ")");
            }
            push_text(out, &arr.arrays);
        },
        None => {},
    }
}

impl FunctionPointer {
    /// The text of this function pointer.
    pub fn to_text(&self) -> (r: Vec<char>)
        ensures
            r@ == fp_text(self@),
    {
        let mut out = Vec::new();
        push_pointer_head(&mut out, &self.return_type, &self.array_qualifiers);
        push_lit(&mut out, "(");
        push_trimmed(&mut out, &self.post_qualifiers);
        push_lit(&mut out, ")");
        push_lit(&mut out, "(");
        push_text(&mut out, &self.args);
        push_lit(&mut out, ")");
        push_pointer_tail(&mut out, &self.array_qualifiers);
        assert(out@ =~= fp_text(self@));
        out
    }
}

impl MethodPointer {
    /// The text of this method pointer.
    pub fn to_text(&self) -> (r: Vec<char>)
        ensures
            r@ == mp_text(self@),
    {
        let mut out = Vec::new();
        push_pointer_head(&mut out, &self.return_type, &self.array_qualifiers);
        push_lit(&mut out, "(");
        push_text(&mut out, &self.class);
        push_lit(&mut out, "::");
        push_trimmed(&mut out, &self.post_qualifiers);
        push_lit(&mut out, ")");
        push_lit(&mut out, "(");
        push_text(&mut out, &self.args);
        push_lit(&mut out, ")");
        if self.is_const_method {
            push_lit(&mut out, " const");
        }
        push_pointer_tail(&mut out, &self.array_qualifiers);
        assert(out@ =~= mp_text(self@));
        out
    }
}

/// A demangled argument.
pub enum DemangledArg {
    Plain(Vec<char>, Option<ArrayQualifiers>),
    FunctionPointer(FunctionPointer),
    MethodPointer(MethodPointer),
    Repeat { count: usize, index: usize },
    Ellipsis,
}

/// A demangled argument as text.
pub ghost enum DArg {
    Plain(Seq<char>, Option<ArrayQualifiersV>),
    FunctionPointer(FunctionPointerV),
    MethodPointer(MethodPointerV),
    Repeat(usize, usize),
    Ellipsis,
}

impl View for DemangledArg {
    type V = DArg;

    open spec fn view(&self) -> DArg {
        match self {
            DemangledArg::Plain(p, a) => DArg::Plain(p@, opt_aq_view(*a)),
            DemangledArg::FunctionPointer(f) => DArg::FunctionPointer(f@),
            DemangledArg::MethodPointer(m) => DArg::MethodPointer(m@),
            DemangledArg::Repeat { count, index } => DArg::Repeat(*count, *index),
            DemangledArg::Ellipsis => DArg::Ellipsis,
        }
    }
}

/// An argument that takes no qualifiers: a repetition of earlier arguments
/// (`N`) or an ellipsis (`e`); none when `t` begins otherwise.
pub open spec fn qualifierless_arg(t: Seq<char>) -> Result<Option<(Seq<char>, DArg)>, DemErr> {
    if t.len() > 0 && t[0] == 'N' {
        match parse_number_maybe_multi_digit(t.skip(1)) {
            None => Err(DemErr::InvalidRepeatingArgument(t)),
            Some((r, count)) => if count == 0 {
                Err(DemErr::InvalidRepeatingArgument(t))
            } else {
                match parse_number_maybe_multi_digit(r) {
                    None => Err(DemErr::InvalidRepeatingArgument(t)),
                    Some((r2, index)) => Ok(Some((r2, DArg::Repeat(count, index)))),
                }
            },
        }
    } else if t.len() > 0 && t[0] == 'e' {
        Ok(Some((t.skip(1), DArg::Ellipsis)))
    } else {
        Ok(None)
    }
}

/// The characters of pointer and reference qualifiers: `P`, `R`, `C`, `V`.
pub open spec fn is_pointer_qualifier(c: char) -> bool {
    c == 'P' || c == 'R' || c == 'C' || c == 'V'
}

/// The text of a pointer qualifier.
pub open spec fn pointer_qualifier_text(c: char) -> Seq<char> {
    if c == 'P' {
        "*"@
    } else if c == 'R' {
        "&"@
    } else if c == 'C' {
        "const "@
    } else {
        "volatile "@
    }
}

/// The leading pointer qualifiers of `t`: what is left, and their text,
/// the last one first.
pub open spec fn pointer_qualifiers(t: Seq<char>) -> (Seq<char>, Seq<char>)
    decreases t.len(),
{
    if t.len() > 0 && is_pointer_qualifier(t[0]) {
        let (r, post) = pointer_qualifiers(t.skip(1));
        (r, post + pointer_qualifier_text(t[0]))
    } else {
        (t, seq![])
    }
}

/// The number of pointer qualifiers at the start of `t`.
pub open spec fn qualifier_run(t: Seq<char>) -> nat
    decreases t.len(),
{
    if t.len() > 0 && is_pointer_qualifier(t[0]) {
        1 + qualifier_run(t.skip(1))
    } else {
        0
    }
}

/// The texts of the qualifiers `q` put together, the last one first.
pub open spec fn reversed_qualifier_text(q: Seq<char>) -> Seq<char>
    decreases q.len(),
{
    if q.len() == 0 {
        seq![]
    } else {
        pointer_qualifier_text(q.last()) + reversed_qualifier_text(q.drop_last())
    }
}

/// Putting a qualifier in front puts its text at the end.
proof fn lemma_reversed_qualifier_text_cons(c: char, q: Seq<char>)
    ensures
        reversed_qualifier_text(seq![c] + q) == reversed_qualifier_text(q) + pointer_qualifier_text(c),
    decreases q.len(),
{
    if q.len() == 0 {
        let e: Seq<char> = seq![];
        assert((seq![c] + q).drop_last() =~= e);
        assert(reversed_qualifier_text(e) == e);
        assert(reversed_qualifier_text(q) == e);
        assert(reversed_qualifier_text(seq![c] + q) =~= reversed_qualifier_text(q) + pointer_qualifier_text(c));
    } else {
        lemma_reversed_qualifier_text_cons(c, q.drop_last());
        assert((seq![c] + q).drop_last() =~= seq![c] + q.drop_last());
        assert((seq![c] + q).last() == q.last());
        assert(reversed_qualifier_text(seq![c] + q) =~= reversed_qualifier_text(q) + pointer_qualifier_text(c));
    }
}

/// The pointer qualifiers at the start of `t` are its longest prefix over
/// `P`, `R`, `C` and `V`; they are written in reverse order, `P` as `*`,
/// `R` as `&`, `C` as `const ` and `V` as `volatile `.
pub proof fn lemma_pointer_qualifiers_reversed(t: Seq<char>)
    ensures
        qualifier_run(t) <= t.len(),
        forall|k: int| 0 <= k < qualifier_run(t) ==> is_pointer_qualifier(#[trigger] t[k]),
        !(qualifier_run(t) < t.len() && is_pointer_qualifier(t[qualifier_run(t) as int])),
        pointer_qualifiers(t) == (t.skip(qualifier_run(t) as int), reversed_qualifier_text(t.take(qualifier_run(t) as int))),
    decreases t.len(),
{
    if t.len() > 0 && is_pointer_qualifier(t[0]) {
        let u = t.skip(1);
        lemma_pointer_qualifiers_reversed(u);
        let n = qualifier_run(u);
        assert(u.skip(n as int) =~= t.skip(n + 1int));
        assert(t.take(n + 1int) =~= seq![t[0]] + u.take(n as int));
        lemma_reversed_qualifier_text_cons(t[0], u.take(n as int));
        assert forall|k: int| 0 <= k < qualifier_run(t) implies is_pointer_qualifier(#[trigger] t[k]) by {
            if k > 0 {
                assert(t[k] == u[k - 1]);
            }
        }
        if n + 1 < t.len() {
            assert(t[n + 1int] == u[n as int]);
        }
    } else {
        assert(t.skip(0) =~= t);
        assert(t.take(0) =~= seq![]);
    }
}

/// Each pointer qualifier letter is written as its own word: `P` as `*`,
/// `R` as `&`, `C` as `const ` and `V` as `volatile `, so that, for
/// instance, `PVi` reads as `volatile *` before the type `int`.
pub proof fn lemma_pointer_qualifier_words(rest: Seq<char>)
    requires
        !(rest.len() > 0 && is_pointer_qualifier(rest[0])),
    ensures
        pointer_qualifiers(seq!['P'] + rest) == (rest, "*"@),
        pointer_qualifiers(seq!['R'] + rest) == (rest, "&"@),
        pointer_qualifiers(seq!['C'] + rest) == (rest, "const "@),
        pointer_qualifiers(seq!['V'] + rest) == (rest, "volatile "@),
        pointer_qualifiers(seq!['P', 'V'] + rest) == (rest, "volatile "@ + "*"@),
{
    reveal_strlit("*");
    reveal_strlit("&");
    reveal_strlit("const ");
    reveal_strlit("volatile ");
    let e: Seq<char> = seq![];
    assert((seq!['P'] + rest).skip(1) =~= rest);
    assert((seq!['R'] + rest).skip(1) =~= rest);
    assert((seq!['C'] + rest).skip(1) =~= rest);
    assert((seq!['V'] + rest).skip(1) =~= rest);
    assert((seq!['P', 'V'] + rest).skip(1) =~= seq!['V'] + rest);
    assert(pointer_qualifiers(rest) == (rest, e));
    assert(e + "*"@ =~= "*"@);
    assert(e + "&"@ =~= "&"@);
    assert(e + "const "@ =~= "const "@);
    assert(e + "volatile "@ =~= "volatile "@);
}

/// The leading qualifiers of an argument are its pointer qualifiers
/// (written in reverse order, see `lemma_pointer_qualifiers_reversed`),
/// then `S` for signed or `U` for unsigned when one of them follows.
pub proof fn lemma_arg_qualifiers_words(t: Seq<char>)
    ensures
        ({
            let p = qualifier_run(t);
            let u = t.skip(p as int);
            let q = reversed_qualifier_text(t.take(p as int));
            arg_qualifiers(t) == (if u.len() > 0 && u[0] == 'S' {
                (u.skip(1), (Signedness::Signed, q))
            } else if u.len() > 0 && u[0] == 'U' {
                (u.skip(1), (Signedness::Unsigned, q))
            } else {
                (u, (Signedness::No, q))
            })
        }),
{
    lemma_pointer_qualifiers_reversed(t);
}

/// The leading qualifiers of an argument: pointer qualifiers, then at most
/// one signedness.
pub open spec fn arg_qualifiers(t: Seq<char>) -> (Seq<char>, (Signedness, Seq<char>)) {
    let (r, post) = pointer_qualifiers(t);
    if r.len() > 0 && r[0] == 'S' {
        (r.skip(1), (Signedness::Signed, post))
    } else if r.len() > 0 && r[0] == 'U' {
        (r.skip(1), (Signedness::Unsigned, post))
    } else {
        (r, (Signedness::No, post))
    }
}

/// The array dimensions `A<n>_...` at the start of `t`: what is left and
/// their text.
pub open spec fn array_dims(t: Seq<char>, cfg: DemangleConfig, fixup: bool) -> Result<(Seq<char>, Seq<char>), DemErr>
    decreases t.len(),
{
    if t.len() > 0 && t[0] == 'A' {
        let rem = t.skip(1);
        match parse_number(rem) {
            None => Err(DemErr::InvalidArraySize(rem)),
            Some((r, length)) => if r.len() > 0 && r[0] == '_' {
                let n: nat = if cfg.fix_array_length_arg && fixup { (length + 1) as nat } else { length as nat };
                proof {
                    lemma_digit_run_bound(rem);
                }
                match array_dims(r.skip(1), cfg, fixup) {
                    Err(e) => Err(e),
                    Ok((r2, rest)) => Ok((r2, "["@ + dec_text(n) + "]"@ + rest)),
                }
            } else {
                Err(DemErr::MalformedArrayArgumment(r))
            },
        }
    } else {
        Ok((t, seq![]))
    }
}

/// One array dimension `A<n>_` is written `[n]`, or `[n + 1]` when
/// `fix_array_length_arg` is set and the dimension may be fixed up; the
/// dimensions after it follow.
pub proof fn lemma_array_dimension_length(t: Seq<char>, cfg: DemangleConfig, fixup: bool)
    ensures
        t.len() > 0 && t[0] == 'A' ==> (parse_number(t.skip(1)) matches Some((r, n)) ==> (r.len() > 0 && r[0] == '_' ==> (array_dims(r.skip(1), cfg, fixup) matches Ok((r2, rest)) ==> array_dims(t, cfg, fixup) == Ok::<(Seq<char>, Seq<char>), DemErr>((r2, "["@ + dec_text((if cfg.fix_array_length_arg && fixup { n + 1 } else { n as int }) as nat) + "]"@ + rest))))),
{
}

/// The array dimensions of an argument, which turn the qualifiers read so
/// far into the qualifiers of what points to the arrays; then the
/// qualifiers of the element type.
pub open spec fn array_pseudo_qualifier(t: Seq<char>, sign: Signedness, post: Seq<char>, cfg: DemangleConfig, fixup: bool) -> Result<
    (Seq<char>, (Signedness, Seq<char>, Option<ArrayQualifiersV>)),
    DemErr,
> {
    if !(t.len() > 0 && t[0] == 'A') {
        Ok((t, (sign, post, None)))
    } else if sign != Signedness::No {
        Err(DemErr::PrevQualifiersInInvalidPostioniAtArrayArgument(t))
    } else {
        match array_dims(t, cfg, fixup) {
            Err(e) => Err(e),
            Ok((r, arrays)) => {
                let (r2, (sign2, post2)) = arg_qualifiers(r);
                Ok((r2, (sign2, post2, Some(ArrayQualifiersV { inner: post, arrays }))))
            },
        }
    }
}

/// Reading pointer qualifiers never lengthens a text.
pub proof fn lemma_pointer_qualifiers_suffix(t: Seq<char>)
    ensures
        pointer_qualifiers(t).0.len() <= t.len(),
    decreases t.len(),
{
    if t.len() > 0 && is_pointer_qualifier(t[0]) {
        lemma_pointer_qualifiers_suffix(t.skip(1));
    }
}

/// Reading argument qualifiers never lengthens a text.
pub proof fn lemma_arg_qualifiers_suffix(t: Seq<char>)
    ensures
        arg_qualifiers(t).0.len() <= t.len(),
{
    lemma_pointer_qualifiers_suffix(t);
}

/// Reading array dimensions never lengthens a text.
pub proof fn lemma_array_dims_suffix(t: Seq<char>, cfg: DemangleConfig, fixup: bool)
    ensures
        array_dims(t, cfg, fixup) matches Ok((r, _)) ==> r.len() <= t.len(),
    decreases t.len(),
{
    if t.len() > 0 && t[0] == 'A' {
        let rem = t.skip(1);
        lemma_digit_run_bound(rem);
        if let Some((r, length)) = parse_number(rem) {
            if r.len() > 0 && r[0] == '_' {
                lemma_array_dims_suffix(r.skip(1), cfg, fixup);
            }
        }
    }
}

/// Reading an array pseudo qualifier never lengthens a text.
pub proof fn lemma_array_pseudo_qualifier_suffix(t: Seq<char>, sign: Signedness, post: Seq<char>, cfg: DemangleConfig, fixup: bool)
    ensures
        array_pseudo_qualifier(t, sign, post, cfg, fixup) matches Ok((r, _)) ==> r.len() <= t.len(),
{
    lemma_array_dims_suffix(t, cfg, fixup);
    if let Ok((r, _)) = array_dims(t, cfg, fixup) {
        lemma_arg_qualifiers_suffix(r);
    }
}

/// The text of a plain argument: signedness, type, then its qualifiers.
pub open spec fn plain_text(sign: Signedness, typ: Seq<char>, post: Seq<char>) -> Seq<char> {
    sign_text(sign) + typ + (if post.len() > 0 { " "@ } else { seq![] }) + trim_spaces(post)
}

/// One argument. `parsed` are the arguments before it in its list, which
/// `T` refers to; `template_args` are the arguments of the template being
/// demangled, which `X` refers to.
#[verifier::opaque]
pub open spec fn argument(t: Seq<char>, parsed: ArgVecV, template_args: ArgVecV, cfg: DemangleConfig, fixup: bool) -> Result<(Seq<char>, DArg), DemErr>
    decreases t.len(), 2nat,
{
    match qualifierless_arg(t) {
        Err(e) => Err(e),
        Ok(Some(x)) => Ok(x),
        Ok(None) => {
            let (a1, (sign, post)) = arg_qualifiers(t);
            match array_pseudo_qualifier(a1, sign, post, cfg, fixup) {
                Err(e) => Err(e),
                Ok((a2, (sign2, post2, aq))) => {
                    proof {
                        lemma_arg_qualifiers_suffix(t);
                        lemma_array_pseudo_qualifier_suffix(a1, sign, post, cfg, fixup);
                    }
                    if a2.len() > 0 && a2[0] == 'F' {
                        match function_pointer_arg(a2.skip(1), template_args, sign2, post2, aq, cfg, fixup) {
                            Err(e) => Err(e),
                            Ok((r, fp)) => Ok((r, DArg::FunctionPointer(fp))),
                        }
                    } else if a2.len() > 0 && a2[0] == 'M' {
                        match method_pointer_arg(a2.skip(1), t, template_args, sign2, post2, aq, cfg, fixup) {
                            Err(e) => Err(e),
                            Ok((r, mp)) => Ok((r, DArg::MethodPointer(mp))),
                        }
                    } else if a2.len() > 0 && a2[0] == 'O' {
                        match object_pointer_arg(a2.skip(1), t, template_args, sign2, post2, aq, cfg, fixup) {
                            Err(e) => Err(e),
                            Ok((r, op)) => Ok((r, DArg::Plain(op, None))),
                        }
                    } else {
                        let (a3, must_be_class_like) = maybe_strip_prefix(a2, 'G');
                        match arg_type(a3, sign2, parsed, template_args, cfg, fixup) {
                            Err(e) => Err(e),
                            Ok((r, (is_class_like, typ, sign3))) => if must_be_class_like && !is_class_like {
                                Err(DemErr::PrimitiveInsteadOfClass(t))
                            } else {
                                Ok((r, DArg::Plain(plain_text(sign3, typ, post2), aq)))
                            },
                        }
                    }
                },
            }
        },
    }
}

/// The name of a builtin type, by its code.
pub open spec fn builtin_type(c: char) -> Option<Seq<char>> {
    if c == 'c' {
        Some("char"@)
    } else if c == 's' {
        Some("short"@)
    } else if c == 'i' {
        Some("int"@)
    } else if c == 'l' {
        Some("long"@)
    } else if c == 'x' {
        Some("long long"@)
    } else if c == 'f' {
        Some("float"@)
    } else if c == 'd' {
        Some("double"@)
    } else if c == 'r' {
        Some("long double"@)
    } else if c == 'b' {
        Some("bool"@)
    } else if c == 'w' {
        Some("wchar_t"@)
    } else if c == 'v' {
        Some("void"@)
    } else {
        None
    }
}

/// The names of the builtin types: `c` is `char`, `s` `short`, `i` `int`,
/// `l` `long`, `x` `long long`, `f` `float`, `d` `double`, `r`
/// `long double`, `b` `bool`, `w` `wchar_t` and `v` `void`; no other letter
/// names one.
pub proof fn lemma_builtin_type_words(c: char)
    ensures
        builtin_type('c') == Some("char"@),
        builtin_type('s') == Some("short"@),
        builtin_type('i') == Some("int"@),
        builtin_type('l') == Some("long"@),
        builtin_type('x') == Some("long long"@),
        builtin_type('f') == Some("float"@),
        builtin_type('d') == Some("double"@),
        builtin_type('r') == Some("long double"@),
        builtin_type('b') == Some("bool"@),
        builtin_type('w') == Some("wchar_t"@),
        builtin_type('v') == Some("void"@),
        !(c == 'c' || c == 's' || c == 'i' || c == 'l' || c == 'x' || c == 'f' || c == 'd' || c == 'r' || c == 'b' || c == 'w' || c == 'v') ==> builtin_type(c) is None,
{
}

/// The index that follows `X`: one digit, or several between `_` and `_`.
pub open spec fn x_index(a: Seq<char>) -> Option<(Seq<char>, usize)> {
    if a.len() > 0 && a[0] == '_' {
        parse_number_maybe_multi_digit(a.skip(1))
    } else {
        parse_digit(a)
    }
}

/// The type of an argument, after its qualifiers: what is left, whether it
/// is class-like, its text, and the signedness to write before it.
#[verifier::opaque]
pub open spec fn arg_type(t: Seq<char>, sign: Signedness, parsed: ArgVecV, template_args: ArgVecV, cfg: DemangleConfig, fixup: bool) -> Result<
    (Seq<char>, (bool, Seq<char>, Signedness)),
    DemErr,
>
    decreases t.len(), 1nat,
{
    if t.len() == 0 {
        Err(DemErr::RanOutOfArguments)
    } else {
        let c = t[0];
        match builtin_type(c) {
            Some(name) => Ok((t.skip(1), (false, name, sign))),
            None => if c == 'I' {
                match parse_hex_number(t.skip(1)) {
                    None => Err(DemErr::MissingBitwidthForExtensionInteger(t.skip(1))),
                    Some((r, bitwidth)) => if bitwidth == 128 {
                        if cfg.fix_extension_int {
                            if sign == Signedness::Unsigned {
                                Ok((r, (false, "__uint128_t"@, Signedness::No)))
                            } else {
                                Ok((r, (false, "__int128_t"@, sign)))
                            }
                        } else {
                            Ok((r, (false, "int128_t"@, sign)))
                        }
                    } else {
                        Err(DemErr::InvalidBitwidthForExtensionInteger(t, bitwidth))
                    },
                }
            } else if '1' <= c <= '9' {
                match custom_name(t, NameKind::CustomNameOnArgument) {
                    Err(e) => Err(e),
                    Ok((r, name)) => Ok((r, (true, name, sign))),
                }
            } else if c == 'Q' {
                match namespaces(t.skip(1), template_args, cfg, fixup) {
                    Err(e) => Err(e),
                    Ok((r, (ns, _trailing))) => Ok((r, (true, ns, sign))),
                }
            } else if c == 'T' {
                match parse_number_maybe_multi_digit(t.skip(1)) {
                    None => Err(DemErr::InvalidLookbackCount(t)),
                    Some((r, lookback)) => match av_get(parsed, lookback as int) {
                        None => Err(DemErr::LookbackCountTooBig(t, lookback)),
                        Some(a) => Ok((r, (false, a, sign))),
                    },
                }
            } else if c == 't' {
                match template(t.skip(1), template_args, cfg, fixup) {
                    Err(e) => Err(e),
                    Ok((r, (tmpl, _typ))) => Ok((r, (true, tmpl, sign))),
                }
            } else if c == 'X' {
                let a = t.skip(1);
                match x_index(a) {
                    None => Err(DemErr::InvalidValueForIndexOnXArgument(a)),
                    Some((r, index)) => match parse_digit(r) {
                        None => Err(DemErr::InvalidValueForNumber1OnXArgument(r)),
                        Some((r2, number1)) => if number1 != 1 && number1 != 0 {
                            Err(DemErr::InvalidNumber1OnXArgument(r2, number1))
                        } else {
                            match av_get(template_args, index as int) {
                                None => Err(DemErr::IndexTooBigForXArgument(r2, index)),
                                Some(a) => Ok((r2, (false, a, sign))),
                            }
                        },
                    },
                }
            } else {
                Err(DemErr::UnknownType(c, t))
            },
        }
    }
}

/// A function pointer or reference, after its `F`: argument list, `_`,
/// return type.
#[verifier::opaque]
pub open spec fn function_pointer_arg(t: Seq<char>, template_args: ArgVecV, sign: Signedness, post: Seq<char>, aq: Option<ArrayQualifiersV>, cfg: DemangleConfig, fixup: bool) -> Result<
    (Seq<char>, FunctionPointerV),
    DemErr,
>
    decreases t.len(), 5nat,
{
    match arg_list_impl(t, None, template_args, true, cfg, fixup) {
        Err(e) => Err(e),
        Ok((r, func_args)) => if !(r.len() > 0 && r[0] == '_') {
            Err(DemErr::MissingReturnTypeForFunctionPointer(r))
        } else if r.len() > t.len() {
            Err(no_progress())
        } else {
            match argument(r.skip(1), func_args, template_args, cfg, fixup) {
                Err(e) => Err(e),
                Ok((r2, ret)) => match ret {
                    DArg::Plain(plain, raq) => Ok((r2, FunctionPointerV {
                        return_type: sign_text(sign) + plain,
                        array_qualifiers: raq,
                        post_qualifiers: post,
                        args: av_join(func_args),
                    })),
                    DArg::FunctionPointer(sub) => Ok((r2, FunctionPointerV {
                        return_type: sub.return_type,
                        array_qualifiers: sub.array_qualifiers,
                        post_qualifiers: sign_text(sign) + post + "("@ + sub.post_qualifiers + ")("@ + av_join(func_args) + ")"@
                            + opt_aq_text(aq),
                        args: sub.args,
                    })),
                    DArg::MethodPointer(sub) => Ok((r2, FunctionPointerV {
                        return_type: sub.return_type,
                        array_qualifiers: sub.array_qualifiers,
                        post_qualifiers: sign_text(sign) + post + "("@ + sub.class + "::"@ + sub.post_qualifiers + ")("@
                            + av_join(func_args) + ")"@ + (if sub.is_const_method { " const"@ } else { seq![] })
                            + opt_aq_text(aq),
                        args: sub.args,
                    })),
                    _ => Err(DemErr::InvalidReturnTypeForFunctionPointer(r2)),
                },
            }
        },
    }
}

/// Whether `post` holds nothing but `*`.
pub open spec fn only_pointers(post: Seq<char>) -> bool {
    forall|i: int| 0 <= i < post.len() ==> post[i] == '*'
}

/// The class of a member pointer: a length-prefixed name, or a plain
/// argument without arrays.
#[verifier::opaque]
pub open spec fn member_class(t: Seq<char>, template_args: ArgVecV, kind: NameKind, cfg: DemangleConfig, fixup: bool) -> Result<(Seq<char>, Seq<char>), DemErr>
    decreases t.len(), 3nat,
{
    if t.len() > 0 && '1' <= t[0] <= '9' {
        custom_name(t, kind)
    } else {
        match argument(t, av_new(cfg, None), template_args, cfg, fixup) {
            Err(e) => Err(e),
            Ok((r, a)) => match a {
                DArg::Plain(class_name, aq) => if aq is Some {
                    Err(name_err(kind, t))
                } else {
                    Ok((r, class_name))
                },
                _ => Err(name_err(kind, t)),
            },
        }
    }
}

/// A method pointer, after its `M`: the class, `C` when the method is
/// const, then `F`, a pointer to the class, and the rest of the function.
/// `full_args` is the whole argument, qualifiers included.
#[verifier::opaque]
pub open spec fn method_pointer_arg(t: Seq<char>, full_args: Seq<char>, template_args: ArgVecV, sign: Signedness, post: Seq<char>, aq: Option<ArrayQualifiersV>, cfg: DemangleConfig, fixup: bool) -> Result<
    (Seq<char>, MethodPointerV),
    DemErr,
>
    decreases t.len(), 4nat,
{
    if sign != Signedness::No || !only_pointers(post) {
        Err(DemErr::InvalidQualifierForMethodMemberArg(full_args))
    } else {
        match member_class(t, template_args, NameKind::ClassOnMethodArgument, cfg, fixup) {
            Err(e) => Err(e),
            Ok((r, class_name)) => if r.len() > t.len() {
                Err(no_progress())
            } else {
                let (r, is_const_method) = maybe_strip_prefix(r, 'C');
                method_pointer_tail(r, class_name, is_const_method, template_args, sign, post, aq, cfg, fixup)
            },
        }
    }
}

/// The rest of a method pointer, after its class and its optional `C`:
/// `F`, a pointer to the class `class_name`, and the rest of the function.
#[verifier::opaque]
pub open spec fn method_pointer_tail(r: Seq<char>, class_name: Seq<char>, is_const_method: bool, template_args: ArgVecV, sign: Signedness, post: Seq<char>, aq: Option<ArrayQualifiersV>, cfg: DemangleConfig, fixup: bool) -> Result<
    (Seq<char>, MethodPointerV),
    DemErr,
>
    decreases r.len(), 3nat,
{
    if r.len() > 0 && r[0] == 'F' {
        let func_pointer = r.skip(1);
        if !(func_pointer.len() > 0 && func_pointer[0] == 'P') {
            Err(DemErr::MethodPointerNotHavingAPointerFirst(func_pointer))
        } else {
            let r3 = func_pointer.skip(1);
            if is_const_method && !(r3.len() > 0 && r3[0] == 'C') {
                Err(DemErr::MethodPointerMissingConstness(func_pointer))
            } else {
                let r4 = if is_const_method { r3.skip(1) } else { r3 };
                match argument(r4, av_new(cfg, None), template_args, cfg, fixup) {
                    Err(e) => Err(e),
                    Ok((r5, a)) => method_pointer_finish(r, func_pointer, r5, a, class_name, is_const_method, template_args, sign, post, aq, cfg, fixup),
                }
            }
        }
    } else {
        Err(DemErr::UnknownMethodMemberArgKind(r))
    }
}

/// The end of a method pointer, once the class it points into was read
/// again, as `a`, leaving `r5`: that must be the class `class_name`, and the
/// rest of the function follows. `func_pointer` is what follows the `F`,
/// and `r` is where the method pointer's tail started.
#[verifier::opaque]
pub open spec fn method_pointer_finish(r: Seq<char>, func_pointer: Seq<char>, r5: Seq<char>, a: DArg, class_name: Seq<char>, is_const_method: bool, template_args: ArgVecV, sign: Signedness, post: Seq<char>, aq: Option<ArrayQualifiersV>, cfg: DemangleConfig, fixup: bool) -> Result<
    (Seq<char>, MethodPointerV),
    DemErr,
>
    decreases r.len(), 2nat,
{
    match a {
        DArg::Plain(class_name_again, aq2) => if class_name != class_name_again {
            Err(DemErr::MethodPointerWrongClassName(func_pointer))
        } else if aq2 is Some {
            Err(DemErr::MethodPointerClassNameAsArray(func_pointer))
        } else if r5.len() >= r.len() {
            Err(no_progress())
        } else {
            match function_pointer_arg(r5, template_args, sign, post, aq, cfg, fixup) {
                Err(e) => Err(e),
                Ok((r6, fp)) => Ok((r6, MethodPointerV {
                    return_type: fp.return_type,
                    array_qualifiers: fp.array_qualifiers,
                    class: class_name,
                    post_qualifiers: fp.post_qualifiers,
                    args: fp.args,
                    is_const_method,
                })),
            }
        },
        _ => Err(DemErr::MissingFirstClassArgumentForMethodMemberArg(func_pointer)),
    }
}

/// The text of a pointer to an object member of type `member_type` with
/// arrays `arr`, in class `class_name`.
pub open spec fn object_pointer_text(member_type: Seq<char>, arr: Option<ArrayQualifiersV>, class_name: Seq<char>, post: Seq<char>) -> Seq<char> {
    let inner_open = match arr {
        Some(a) => if a.inner.len() > 0 { "("@ + a.inner } else { seq![] },
        None => seq![],
    };
    let tail = match arr {
        Some(a) => (if a.inner.len() > 0 { ")"@ } else { seq![] }) + a.arrays,
        None => seq![],
    };
    member_type + " "@ + inner_open + "("@ + class_name + "::"@ + post + ")"@ + tail
}

/// A pointer to a data member of class `class_name` whose type `m` is no
/// array is written `m (class_name::post)`: the type, then the class and
/// the pointer qualifiers in parentheses.
pub proof fn lemma_object_pointer_text_names_class(m: Seq<char>, class_name: Seq<char>, post: Seq<char>)
    ensures
        object_pointer_text(m, None, class_name, post) == m + " ("@ + class_name + "::"@ + post + ")"@,
{
    reveal_strlit(" ");
    reveal_strlit("(");
    reveal_strlit(" (");
    let e: Seq<char> = seq![];
    assert(m + " "@ + e + "("@ + class_name + "::"@ + post + ")"@ + e =~= m + " ("@ + class_name + "::"@ + post + ")"@);
}

/// Whatever its type, a pointer to a data member names its class, then
/// `::` and its pointer qualifiers, in parentheses.
pub proof fn lemma_object_pointer_text_contains_class(m: Seq<char>, arr: Option<ArrayQualifiersV>, class_name: Seq<char>, post: Seq<char>)
    ensures
        exists|a: Seq<char>, b: Seq<char>| object_pointer_text(m, arr, class_name, post) == a + "("@ + class_name + "::"@ + post + ")"@ + b,
{
    let inner_open = match arr {
        Some(x) => if x.inner.len() > 0 { "("@ + x.inner } else { seq![] },
        None => seq![],
    };
    let tail = match arr {
        Some(x) => (if x.inner.len() > 0 { ")"@ } else { seq![] }) + x.arrays,
        None => seq![],
    };
    let a = m + " "@ + inner_open;
    assert(object_pointer_text(m, arr, class_name, post) =~= a + "("@ + class_name + "::"@ + post + ")"@ + tail);
}

/// A pointer to an object member, after its `O`: the class, `_`, the
/// member's type. `full_args` is the whole argument, qualifiers included.
#[verifier::opaque]
pub open spec fn object_pointer_arg(t: Seq<char>, full_args: Seq<char>, template_args: ArgVecV, sign: Signedness, post: Seq<char>, aq: Option<ArrayQualifiersV>, cfg: DemangleConfig, fixup: bool) -> Result<
    (Seq<char>, Seq<char>),
    DemErr,
>
    decreases t.len(), 4nat,
{
    if sign != Signedness::No || !only_pointers(post) || aq is Some {
        Err(DemErr::InvalidQualifierForObjectMemberArg(full_args))
    } else {
        match member_class(t, template_args, NameKind::ClassOnObjectMemberArgument, cfg, fixup) {
            Err(e) => Err(e),
            Ok((r, class_name)) => if !(r.len() > 0 && r[0] == '_') {
                Err(DemErr::MissingTypeForObjectMemberPointer(r))
            } else if r.len() > t.len() {
                Err(no_progress())
            } else {
                match argument(r.skip(1), av_new(cfg, None), template_args, cfg, fixup) {
                    Err(e) => Err(e),
                    Ok((r2, a)) => match a {
                        DArg::Plain(member_type, arr) => Ok((r2, object_pointer_text(member_type, arr, class_name, post))),
                        _ => Err(DemErr::InvalidTypeForObjectMemberPointer(full_args)),
                    },
                }
            },
        }
    }
}

/// Reads an argument that takes no qualifiers, at the start of `lo..hi`.
pub fn demangle_qualifierless_arg<'s>(inp: &Input<'s>, lo: usize, hi: usize) -> (res: Result<Option<(usize, DemangledArg)>, DemangleError<'s>>)
    requires
        inp.wf(),
        lo <= hi <= inp@.len(),
    ensures
        not_non_ascii(res),
        match qualifierless_arg(inp@.subrange(lo as int, hi as int)) {
            Err(e) => res matches Err(e2) && e2@ == e,
            Ok(None) => res matches Ok(None),
            Ok(Some((r, d))) => res matches Ok(Some((p, d2))) && lo < p <= hi && r == inp@.subrange(p as int, hi as int) && d2@ == d,
        },
{
    let ghost t = inp@.subrange(lo as int, hi as int);
    if lo < hi && inp.at(lo) == 'N' {
        assert(t.skip(1) =~= inp@.subrange(lo + 1, hi as int));
        match p_number_maybe_multi_digit_in(inp, lo + 1, hi) {
            None => Err(DemangleError::InvalidRepeatingArgument(inp.slice(lo, hi))),
            Some((r, count)) => {
                if count == 0 {
                    return Err(DemangleError::InvalidRepeatingArgument(inp.slice(lo, hi)));
                }
                match p_number_maybe_multi_digit_in(inp, r, hi) {
                    None => Err(DemangleError::InvalidRepeatingArgument(inp.slice(lo, hi))),
                    Some((r2, index)) => Ok(Some((r2, DemangledArg::Repeat { count, index }))),
                }
            },
        }
    } else if lo < hi && inp.at(lo) == 'e' {
        assert(t.skip(1) =~= inp@.subrange(lo + 1, hi as int));
        Ok(Some((lo + 1, DemangledArg::Ellipsis)))
    } else {
        Ok(None)
    }
}

fn is_pointer_qualifier_exec(c: char) -> (b: bool)
    ensures
        b == is_pointer_qualifier(c),
{
    c == 'P' || c == 'R' || c == 'C' || c == 'V'
}

fn pointer_qualifier_lit(c: char) -> (s: &'static str)
    ensures
        s@ == pointer_qualifier_text(c),
{
    if c == 'P' {
        "*"
    } else if c == 'R' {
        "&"
    } else if c == 'C' {
        "const "
    } else {
        "volatile "
    }
}

/// Reads the leading qualifiers of an argument at the start of `lo..hi`:
/// pointer qualifiers, then at most one signedness.
pub fn demangle_arg_qualifiers(inp: &Input, lo: usize, hi: usize) -> (res: (usize, (Signedness, Vec<char>)))
    requires
        inp.wf(),
        lo <= hi <= inp@.len(),
    ensures
        lo <= res.0 <= hi,
        arg_qualifiers(inp@.subrange(lo as int, hi as int)) == (inp@.subrange(res.0 as int, hi as int), res.1@),
{
    let mut p = lo;
    let mut post: Vec<char> = Vec::new();
    let ghost want = pointer_qualifiers(inp@.subrange(lo as int, hi as int));
    while p < hi && is_pointer_qualifier_exec(inp.at(p))
        invariant
            inp.wf(),
            lo <= p <= hi <= inp@.len(),
            pointer_qualifiers(inp@.subrange(p as int, hi as int)).0 == want.0,
            pointer_qualifiers(inp@.subrange(p as int, hi as int)).1 + post@ == want.1,
        decreases hi - p,
    {
        let c = inp.at(p);
        assert(inp@.subrange(p as int, hi as int).skip(1) =~= inp@.subrange(p + 1, hi as int));
        let ghost rest = pointer_qualifiers(inp@.subrange(p + 1, hi as int)).1;
        let q = lit(pointer_qualifier_lit(c));
        let ghost prev = post@;
        post = concat(&q, &post);
        assert(rest + pointer_qualifier_text(c) + prev =~= rest + post@);
        p = p + 1;
    }
    assert(want.1 =~= post@);
    if p < hi && inp.at(p) == 'S' {
        assert(inp@.subrange(p as int, hi as int).skip(1) =~= inp@.subrange(p + 1, hi as int));
        (p + 1, (Signedness::Signed, post))
    } else if p < hi && inp.at(p) == 'U' {
        assert(inp@.subrange(p as int, hi as int).skip(1) =~= inp@.subrange(p + 1, hi as int));
        (p + 1, (Signedness::Unsigned, post))
    } else {
        (p, (Signedness::No, post))
    }
}

/// Reads array dimensions at the start of `lo..hi` and appends their text
/// to `arrays`.
fn demangle_array_dims<'s>(inp: &Input<'s>, cfg: &DemangleConfig, lo: usize, hi: usize, fixup: bool, arrays: &mut Vec<char>) -> (res: Result<usize, DemangleError<'s>>)
    requires
        inp.wf(),
        lo <= hi <= inp@.len(),
    ensures
        not_non_ascii(res),
        match array_dims(inp@.subrange(lo as int, hi as int), *cfg, fixup) {
            Ok((r, text)) => res matches Ok(p) && lo <= p <= hi && r == inp@.subrange(p as int, hi as int)
                && final(arrays)@ == old(arrays)@ + text,
            Err(e) => res matches Err(e2) && e2@ == e,
        },
{
    let ghost start = arrays@;
    let mut p = lo;
    let ghost want = array_dims(inp@.subrange(lo as int, hi as int), *cfg, fixup);
    assert(inp@.subrange(lo as int, hi as int) =~= inp@.subrange(p as int, hi as int));
    while p < hi && inp.at(p) == 'A'
        invariant
            inp.wf(),
            lo <= p <= hi <= inp@.len(),
            match array_dims(inp@.subrange(p as int, hi as int), *cfg, fixup) {
                Ok((r, text)) => want == Ok::<(Seq<char>, Seq<char>), DemErr>((r, arrays@.skip(start.len() as int) + text)),
                Err(e) => want == Err::<(Seq<char>, Seq<char>), DemErr>(e),
            },
            arrays@.len() >= start.len(),
            arrays@.take(start.len() as int) == start,
            want == array_dims(inp@.subrange(lo as int, hi as int), *cfg, fixup),
            start == old(arrays)@,
        decreases hi - p,
    {
        let ghost t = inp@.subrange(p as int, hi as int);
        assert(t.skip(1) =~= inp@.subrange(p + 1, hi as int));
        match p_number(inp, p + 1, hi) {
            None => {
                return Err(DemangleError::InvalidArraySize(inp.slice(p + 1, hi)));
            },
            Some((r, length)) => {
                if !(r < hi && inp.at(r) == '_') {
                    return Err(DemangleError::MalformedArrayArgumment(inp.slice(r, hi)));
                }
                let n: u128 = if cfg.fix_array_length_arg && fixup { length as u128 + 1 } else { length as u128 };
                let ghost before = arrays@;
                push_lit(arrays, "[");
                push_dec(arrays, n);
                push_lit(arrays, "]");
                assert(inp@.subrange(r as int, hi as int).skip(1) =~= inp@.subrange(r + 1, hi as int));
                p = r + 1;
                proof {
                    let piece = "["@ + dec_text(n as nat) + "]"@;
                    assert(arrays@ =~= before + piece);
                    assert(arrays@.skip(start.len() as int) =~= before.skip(start.len() as int) + piece);
                    assert(arrays@.take(start.len() as int) =~= before.take(start.len() as int));
                    match array_dims(inp@.subrange(p as int, hi as int), *cfg, fixup) {
                        Ok((r2, text)) => {
                            assert(before.skip(start.len() as int) + (piece + text) =~= arrays@.skip(start.len() as int) + text);
                        },
                        Err(e) => {},
                    }
                }
            },
        }
    }
    proof {
        assert(arrays@ =~= start + arrays@.skip(start.len() as int));
        assert(arrays@.skip(start.len() as int) + seq![] =~= arrays@.skip(start.len() as int));
    }
    Ok(p)
}

/// Reads the array dimensions of an argument at the start of `lo..hi`,
/// when there are any, and the qualifiers of the element type after them.
pub fn demangle_array_pseudo_qualifier<'s>(inp: &Input<'s>, cfg: &DemangleConfig, lo: usize, hi: usize, sign: Signedness, post_qualifiers: Vec<char>, fixup: bool) -> (res: Result<
    (usize, (Signedness, Vec<char>, Option<ArrayQualifiers>)),
    DemangleError<'s>,
>)
    requires
        inp.wf(),
        lo <= hi <= inp@.len(),
    ensures
        not_non_ascii(res),
        match array_pseudo_qualifier(inp@.subrange(lo as int, hi as int), sign, post_qualifiers@, *cfg, fixup) {
            Ok((r, (s2, p2, aq))) => res matches Ok((p, (s3, p3, aq3))) && lo <= p <= hi && r == inp@.subrange(p as int, hi as int)
                && s3 == s2 && p3@ == p2 && opt_aq_view(aq3) == aq,
            Err(e) => res matches Err(e2) && e2@ == e,
        },
{
    if !(lo < hi && inp.at(lo) == 'A') {
        return Ok((lo, (sign, post_qualifiers, None)));
    }
    if sign != Signedness::No {
        return Err(DemangleError::PrevQualifiersInInvalidPostioniAtArrayArgument(inp.slice(lo, hi)));
    }
    let mut arrays: Vec<char> = Vec::new();
    let r = demangle_array_dims(inp, cfg, lo, hi, fixup, &mut arrays)?;
    let (r2, (sign2, post2)) = demangle_arg_qualifiers(inp, r, hi);
    assert(arrays@ =~= seq![] + arrays@);
    Ok((r2, (sign2, post2, Some(ArrayQualifiers { inner_post_qualifiers: post_qualifiers, arrays }))))
}

fn builtin_type_exec(c: char) -> (r: Option<&'static str>)
    ensures
        match builtin_type(c) {
            Some(name) => r matches Some(n) && n@ == name,
            None => r is None,
        },
{
    if c == 'c' {
        Some("char")
    } else if c == 's' {
        Some("short")
    } else if c == 'i' {
        Some("int")
    } else if c == 'l' {
        Some("long")
    } else if c == 'x' {
        Some("long long")
    } else if c == 'f' {
        Some("float")
    } else if c == 'd' {
        Some("double")
    } else if c == 'r' {
        Some("long double")
    } else if c == 'b' {
        Some("bool")
    } else if c == 'w' {
        Some("wchar_t")
    } else if c == 'v' {
        Some("void")
    } else {
        None
    }
}

fn only_pointers_exec(post: &Vec<char>) -> (b: bool)
    ensures
        b == only_pointers(post@),
{
    let n = post.len();
    for i in 0..n
        invariant
            n == post@.len(),
            forall|j: int| 0 <= j < i ==> post@[j] == '*',
    {
        if post[i] != '*' {
            return false;
        }
    }
    true
}

/// Reads one argument at the start of `lo..hi`. `parsed` are the arguments
/// before it in its list; `template_args` those of the template being
/// demangled.
#[verifier::spinoff_prover]
#[verifier::rlimit(100)]
pub fn demangle_argument<'s>(inp: &Input<'s>, cfg: &DemangleConfig, lo: usize, hi: usize, parsed: &ArgVec, template_args: &ArgVec, fixup: bool) -> (res: Result<(usize, DemangledArg), DemangleError<'s>>)
    requires
        inp.wf(),
        lo <= hi <= inp@.len(),
    ensures
        not_non_ascii(res),
        lift(inp@, hi as int, res) == argument(inp@.subrange(lo as int, hi as int), parsed@, template_args@, *cfg, fixup),
        consumed(res, lo as int, hi as int),
    decreases hi - lo, 2nat,
{
    proof {
        reveal_with_fuel(argument, 1);
        reveal_with_fuel(arg_type, 1);
        reveal_with_fuel(function_pointer_arg, 1);
        reveal_with_fuel(method_pointer_arg, 1);
        reveal_with_fuel(object_pointer_arg, 1);
    }
    let ghost t = inp@.subrange(lo as int, hi as int);
    match demangle_qualifierless_arg(inp, lo, hi)? {
        Some(x) => {
            return Ok(x);
        },
        None => {},
    }
    let (a1, (sign, post)) = demangle_arg_qualifiers(inp, lo, hi);
    let (a2, (sign2, post2, aq)) = demangle_array_pseudo_qualifier(inp, cfg, a1, hi, sign, post, fixup)?;
    if a2 < hi && inp.at(a2) == 'F' {
        proof {
            lemma_skip(inp@, a2 as int, hi as int, 1);
        }
        let (r, fp) = demangle_function_pointer_arg(inp, cfg, a2 + 1, hi, template_args, sign2, post2, aq, fixup)?;
        Ok((r, DemangledArg::FunctionPointer(fp)))
    } else if a2 < hi && inp.at(a2) == 'M' {
        proof {
            lemma_skip(inp@, a2 as int, hi as int, 1);
        }
        let (r, mp) = demangle_method_pointer_arg(inp, cfg, a2 + 1, hi, lo, template_args, sign2, post2, aq, fixup)?;
        Ok((r, DemangledArg::MethodPointer(mp)))
    } else if a2 < hi && inp.at(a2) == 'O' {
        proof {
            lemma_skip(inp@, a2 as int, hi as int, 1);
        }
        let (r, op) = demangle_object_pointer_arg(inp, cfg, a2 + 1, hi, lo, template_args, sign2, post2, aq, fixup)?;
        Ok((r, DemangledArg::Plain(op, None)))
    } else {
        let (a3, must_be_class_like) = c_maybe_strip_prefix(inp, a2, hi, 'G');
        let (r, (is_class_like, typ, sign3)) = demangle_arg_type(inp, cfg, a3, hi, sign2, parsed, template_args, fixup)?;
        if must_be_class_like && !is_class_like {
            return Err(DemangleError::PrimitiveInsteadOfClass(inp.slice(lo, hi)));
        }
        let mut out = Vec::new();
        push_sign(&mut out, sign3);
        push_text(&mut out, &typ);
        if post2.len() > 0 {
            push_lit(&mut out, " ");
        }
        push_trimmed(&mut out, &post2);
        assert(out@ =~= plain_text(sign3, typ@, post2@));
        Ok((r, DemangledArg::Plain(out, aq)))
    }
}

/// Reads the type of an argument, after its qualifiers, at the start of
/// `lo..hi`: whether it is class-like, its text, and the signedness to
/// write before it.
pub fn demangle_arg_type<'s>(inp: &Input<'s>, cfg: &DemangleConfig, lo: usize, hi: usize, sign: Signedness, parsed: &ArgVec, template_args: &ArgVec, fixup: bool) -> (res: Result<
    (usize, (bool, Vec<char>, Signedness)),
    DemangleError<'s>,
>)
    requires
        inp.wf(),
        lo <= hi <= inp@.len(),
    ensures
        not_non_ascii(res),
        lift(inp@, hi as int, res) == arg_type(inp@.subrange(lo as int, hi as int), sign, parsed@, template_args@, *cfg, fixup),
        consumed(res, lo as int, hi as int),
    decreases hi - lo, 1nat,
{
    proof {
        reveal_with_fuel(arg_type, 1);
        reveal_with_fuel(namespaces, 1);
        reveal_with_fuel(template, 1);
    }
    let ghost t = inp@.subrange(lo as int, hi as int);
    if lo == hi {
        return Err(DemangleError::RanOutOfArguments);
    }
    let c = inp.at(lo);
    proof {
        lemma_skip(inp@, lo as int, hi as int, 1);
    }
    match builtin_type_exec(c) {
        Some(name) => {
            return Ok((lo + 1, (false, lit(name), sign)));
        },
        None => {},
    }
    if c == 'I' {
        match p_hex_number(inp, lo + 1, hi) {
            None => Err(DemangleError::MissingBitwidthForExtensionInteger(inp.slice(lo + 1, hi))),
            Some((r, bitwidth)) => {
                if bitwidth == 128 {
                    if cfg.fix_extension_int {
                        if sign == Signedness::Unsigned {
                            Ok((r, (false, lit("__uint128_t"), Signedness::No)))
                        } else {
                            Ok((r, (false, lit("__int128_t"), sign)))
                        }
                    } else {
                        Ok((r, (false, lit("int128_t"), sign)))
                    }
                } else {
                    Err(DemangleError::InvalidBitwidthForExtensionInteger(inp.slice(lo, hi), bitwidth))
                }
            },
        }
    } else if '1' <= c && c <= '9' {
        let (r, name) = custom_name_in(inp, lo, hi, NameKind::CustomNameOnArgument)?;
        Ok((r, (true, name, sign)))
    } else if c == 'Q' {
        let (r, (ns, _trailing)) = demangle_namespaces(inp, cfg, lo + 1, hi, template_args, fixup)?;
        Ok((r, (true, ns, sign)))
    } else if c == 'T' {
        match p_number_maybe_multi_digit_in(inp, lo + 1, hi) {
            None => Err(DemangleError::InvalidLookbackCount(inp.slice(lo, hi))),
            Some((r, lookback)) => match parsed.get(lookback) {
                None => Err(DemangleError::LookbackCountTooBig(inp.slice(lo, hi), lookback)),
                Some(a) => Ok((r, (false, a, sign))),
            },
        }
    } else if c == 't' {
        let (r, (tmpl, _typ)) = demangle_template(inp, cfg, lo + 1, hi, template_args, fixup)?;
        Ok((r, (true, tmpl, sign)))
    } else if c == 'X' {
        let a = lo + 1;
        let idx = if a < hi && inp.at(a) == '_' {
            proof {
                lemma_skip(inp@, a as int, hi as int, 1);
            }
            p_number_maybe_multi_digit_in(inp, a + 1, hi)
        } else {
            p_digit(inp, a, hi)
        };
        match idx {
            None => Err(DemangleError::InvalidValueForIndexOnXArgument(inp.slice(a, hi))),
            Some((r, index)) => match p_digit(inp, r, hi) {
                None => Err(DemangleError::InvalidValueForNumber1OnXArgument(inp.slice(r, hi))),
                Some((r2, number1)) => {
                    if number1 != 1 && number1 != 0 {
                        Err(DemangleError::InvalidNumber1OnXArgument(inp.slice(r2, hi), number1))
                    } else {
                        match template_args.get(index) {
                            None => Err(DemangleError::IndexTooBigForXArgument(inp.slice(r2, hi), index)),
                            Some(a) => Ok((r2, (false, a, sign))),
                        }
                    }
                },
            },
        }
    } else {
        Err(DemangleError::UnknownType(c, inp.slice(lo, hi)))
    }
}

/// Reads a function pointer or reference, after its `F`, at the start of
/// `lo..hi`.
#[verifier::spinoff_prover]
#[verifier::rlimit(100)]
pub fn demangle_function_pointer_arg<'s>(inp: &Input<'s>, cfg: &DemangleConfig, lo: usize, hi: usize, template_args: &ArgVec, sign: Signedness, post_qualifiers: Vec<char>, array_qualifiers: Option<ArrayQualifiers>, fixup: bool) -> (res: Result<
    (usize, FunctionPointer),
    DemangleError<'s>,
>)
    requires
        inp.wf(),
        lo <= hi <= inp@.len(),
    ensures
        not_non_ascii(res),
        lift(inp@, hi as int, res) == function_pointer_arg(inp@.subrange(lo as int, hi as int), template_args@, sign, post_qualifiers@, opt_aq_view(array_qualifiers), *cfg, fixup),
        consumed(res, lo as int, hi as int),
    decreases hi - lo, 5nat,
{
    proof {
        reveal_with_fuel(function_pointer_arg, 1);
        reveal_with_fuel(arg_list_impl, 1);
        reveal_with_fuel(argument, 1);
    }
    let (r, func_args) = demangle_argument_list_impl(inp, cfg, lo, hi, None, template_args, true, fixup)?;
    if !(r < hi && inp.at(r) == '_') {
        return Err(DemangleError::MissingReturnTypeForFunctionPointer(inp.slice(r, hi)));
    }
    proof {
        lemma_skip(inp@, r as int, hi as int, 1);
    }
    let (r2, ret) = demangle_argument(inp, cfg, r + 1, hi, &func_args, template_args, fixup)?;
    match ret {
        DemangledArg::Plain(plain, raq) => {
            let mut return_type = Vec::new();
            push_sign(&mut return_type, sign);
            push_text(&mut return_type, &plain);
            let args = func_args.join();
            Ok((r2, FunctionPointer { return_type, array_qualifiers: raq, post_qualifiers, args }))
        },
        DemangledArg::FunctionPointer(sub) => {
            let args = func_args.join();
            let mut pq = Vec::new();
            push_sign(&mut pq, sign);
            push_text(&mut pq, &post_qualifiers);
            push_lit(&mut pq, "(");
            push_text(&mut pq, &sub.post_qualifiers);
            push_lit(&mut pq, ")(");
            push_text(&mut pq, &args);
            push_lit(&mut pq, ")");
            push_opt_aq(&mut pq, &array_qualifiers);
            let fp = FunctionPointer {
                return_type: sub.return_type,
                array_qualifiers: sub.array_qualifiers,
                post_qualifiers: pq,
                args: sub.args,
            };
            assert(fp@.post_qualifiers =~= sign_text(sign) + post_qualifiers@ + "("@ + sub@.post_qualifiers + ")("@ + args@ + ")"@
                + opt_aq_text(opt_aq_view(array_qualifiers)));
            Ok((r2, fp))
        },
        DemangledArg::MethodPointer(sub) => {
            let args = func_args.join();
            let mut pq = Vec::new();
            push_sign(&mut pq, sign);
            push_text(&mut pq, &post_qualifiers);
            push_lit(&mut pq, "(");
            push_text(&mut pq, &sub.class);
            push_lit(&mut pq, "::");
            push_text(&mut pq, &sub.post_qualifiers);
            push_lit(&mut pq, ")(");
            push_text(&mut pq, &args);
            push_lit(&mut pq, ")");
            if sub.is_const_method {
                push_lit(&mut pq, " const");
            }
            push_opt_aq(&mut pq, &array_qualifiers);
            let ghost sv = sub@;
            let fp = FunctionPointer {
                return_type: sub.return_type,
                array_qualifiers: sub.array_qualifiers,
                post_qualifiers: pq,
                args: sub.args,
            };
            assert(fp@.post_qualifiers =~= sign_text(sign) + post_qualifiers@ + "("@ + sv.class + "::"@ + sv.post_qualifiers + ")("@
                + args@ + ")"@ + (if sv.is_const_method { " const"@ } else { seq![] }) + opt_aq_text(opt_aq_view(array_qualifiers)));
            Ok((r2, fp))
        },
        _ => Err(DemangleError::InvalidReturnTypeForFunctionPointer(inp.slice(r2, hi))),
    }
}

/// Reads the class of a member pointer at the start of `lo..hi`.
fn demangle_member_class<'s>(inp: &Input<'s>, cfg: &DemangleConfig, lo: usize, hi: usize, template_args: &ArgVec, kind: NameKind, fixup: bool) -> (res: Result<(usize, Vec<char>), DemangleError<'s>>)
    requires
        inp.wf(),
        lo <= hi <= inp@.len(),
    ensures
        not_non_ascii(res),
        lift(inp@, hi as int, res) == member_class(inp@.subrange(lo as int, hi as int), template_args@, kind, *cfg, fixup),
        consumed(res, lo as int, hi as int),
    decreases hi - lo, 3nat,
{
    proof {
        reveal_with_fuel(member_class, 1);
        reveal_with_fuel(argument, 1);
    }
    if lo < hi && '1' <= inp.at(lo) && inp.at(lo) <= '9' {
        custom_name_in(inp, lo, hi, kind)
    } else {
        let empty = ArgVec::new(cfg, None);
        let (r, a) = demangle_argument(inp, cfg, lo, hi, &empty, template_args, fixup)?;
        match a {
            DemangledArg::Plain(class_name, aq) => {
                if aq.is_some() {
                    Err(make_name_err(kind, inp.slice(lo, hi)))
                } else {
                    Ok((r, class_name))
                }
            },
            _ => Err(make_name_err(kind, inp.slice(lo, hi))),
        }
    }
}

/// Reads a method pointer, after its `M`, at the start of `lo..hi`;
/// `full_lo` is where the whole argument starts.
pub fn demangle_method_pointer_arg<'s>(inp: &Input<'s>, cfg: &DemangleConfig, lo: usize, hi: usize, full_lo: usize, template_args: &ArgVec, sign: Signedness, post_qualifiers: Vec<char>, array_qualifiers: Option<ArrayQualifiers>, fixup: bool) -> (res: Result<
    (usize, MethodPointer),
    DemangleError<'s>,
>)
    requires
        inp.wf(),
        full_lo <= lo <= hi <= inp@.len(),
    ensures
        not_non_ascii(res),
        lift(inp@, hi as int, res) == method_pointer_arg(inp@.subrange(lo as int, hi as int), inp@.subrange(full_lo as int, hi as int), template_args@, sign, post_qualifiers@, opt_aq_view(array_qualifiers), *cfg, fixup),
        consumed(res, lo as int, hi as int),
    decreases hi - lo, 4nat,
{
    proof {
        reveal_with_fuel(method_pointer_arg, 1);
        reveal_with_fuel(member_class, 1);
        reveal_with_fuel(method_pointer_tail, 1);
    }
    if sign != Signedness::No || !only_pointers_exec(&post_qualifiers) {
        return Err(DemangleError::InvalidQualifierForMethodMemberArg(inp.slice(full_lo, hi)));
    }
    let (r, class_name) = demangle_member_class(inp, cfg, lo, hi, template_args, NameKind::ClassOnMethodArgument, fixup)?;
    let (r, is_const_method) = c_maybe_strip_prefix(inp, r, hi, 'C');
    demangle_method_pointer_tail(inp, cfg, r, hi, template_args, class_name, is_const_method, sign, post_qualifiers, array_qualifiers, fixup)
}

/// Reads the rest of a method pointer, after its class and its optional
/// `C`, at the start of `lo..hi`.
#[verifier::spinoff_prover]
#[verifier::rlimit(100)]
pub fn demangle_method_pointer_tail<'s>(inp: &Input<'s>, cfg: &DemangleConfig, lo: usize, hi: usize, template_args: &ArgVec, class_name: Vec<char>, is_const_method: bool, sign: Signedness, post_qualifiers: Vec<char>, array_qualifiers: Option<ArrayQualifiers>, fixup: bool) -> (res: Result<
    (usize, MethodPointer),
    DemangleError<'s>,
>)
    requires
        inp.wf(),
        lo <= hi <= inp@.len(),
    ensures
        lift(inp@, hi as int, res) == method_pointer_tail(inp@.subrange(lo as int, hi as int), class_name@, is_const_method, template_args@, sign, post_qualifiers@, opt_aq_view(array_qualifiers), *cfg, fixup),
        consumed(res, lo as int, hi as int),
        not_non_ascii(res),
    decreases hi - lo, 3nat,
{
    proof {
        reveal_with_fuel(method_pointer_tail, 1);
        reveal_with_fuel(argument, 1);
        reveal_with_fuel(method_pointer_finish, 1);
    }
    let r = lo;
    if r < hi && inp.at(r) == 'F' {
        let func_pointer = r + 1;
        proof {
            lemma_skip(inp@, r as int, hi as int, 1);
        }
        if !(func_pointer < hi && inp.at(func_pointer) == 'P') {
            return Err(DemangleError::MethodPointerNotHavingAPointerFirst(inp.slice(func_pointer, hi)));
        }
        proof {
            lemma_skip(inp@, func_pointer as int, hi as int, 1);
        }
        let mut r3 = func_pointer + 1;
        if is_const_method {
            if !(r3 < hi && inp.at(r3) == 'C') {
                return Err(DemangleError::MethodPointerMissingConstness(inp.slice(func_pointer, hi)));
            }
            proof {
                lemma_skip(inp@, r3 as int, hi as int, 1);
            }
            r3 = r3 + 1;
        }
        let empty = ArgVec::new(cfg, None);
        let (r5, a) = demangle_argument(inp, cfg, r3, hi, &empty, template_args, fixup)?;
        demangle_method_pointer_finish(inp, cfg, lo, func_pointer, r5, hi, template_args, class_name, a, is_const_method, sign, post_qualifiers, array_qualifiers, fixup)
    } else {
        Err(DemangleError::UnknownMethodMemberArgKind(inp.slice(r, hi)))
    }
}

/// Reads the end of a method pointer, once the class it points into was
/// read again, as `a`, ending at `r5`; `fp_lo` is where what follows the
/// `F` starts, and `lo` where the method pointer's tail started.
#[verifier::spinoff_prover]
pub fn demangle_method_pointer_finish<'s>(inp: &Input<'s>, cfg: &DemangleConfig, lo: usize, fp_lo: usize, r5: usize, hi: usize, template_args: &ArgVec, class_name: Vec<char>, a: DemangledArg, is_const_method: bool, sign: Signedness, post_qualifiers: Vec<char>, array_qualifiers: Option<ArrayQualifiers>, fixup: bool) -> (res: Result<
    (usize, MethodPointer),
    DemangleError<'s>,
>)
    requires
        inp.wf(),
        lo < fp_lo <= hi <= inp@.len(),
        lo < r5 <= hi,
    ensures
        lift(inp@, hi as int, res) == method_pointer_finish(inp@.subrange(lo as int, hi as int), inp@.subrange(fp_lo as int, hi as int), inp@.subrange(r5 as int, hi as int), a@, class_name@, is_const_method, template_args@, sign, post_qualifiers@, opt_aq_view(array_qualifiers), *cfg, fixup),
        consumed(res, r5 as int, hi as int),
        not_non_ascii(res),
    decreases hi - lo, 2nat,
{
    proof {
        reveal_with_fuel(method_pointer_finish, 1);
        reveal_with_fuel(function_pointer_arg, 1);
    }
    match a {
        DemangledArg::Plain(class_name_again, aq2) => {
            if !text_eq(&class_name, &class_name_again) {
                Err(DemangleError::MethodPointerWrongClassName(inp.slice(fp_lo, hi)))
            } else if aq2.is_some() {
                Err(DemangleError::MethodPointerClassNameAsArray(inp.slice(fp_lo, hi)))
            } else {
                let (r6, fp) = demangle_function_pointer_arg(inp, cfg, r5, hi, template_args, sign, post_qualifiers, array_qualifiers, fixup)?;
                Ok((r6, MethodPointer {
                    return_type: fp.return_type,
                    array_qualifiers: fp.array_qualifiers,
                    class: class_name,
                    post_qualifiers: fp.post_qualifiers,
                    args: fp.args,
                    is_const_method,
                }))
            }
        },
        _ => Err(DemangleError::MissingFirstClassArgumentForMethodMemberArg(inp.slice(fp_lo, hi))),
    }
}

/// Reads a pointer to an object member, after its `O`, at the start of
/// `lo..hi`; `full_lo` is where the whole argument starts.
#[verifier::spinoff_prover]
#[verifier::rlimit(100)]
pub fn demangle_object_pointer_arg<'s>(inp: &Input<'s>, cfg: &DemangleConfig, lo: usize, hi: usize, full_lo: usize, template_args: &ArgVec, sign: Signedness, post_qualifiers: Vec<char>, array_qualifiers: Option<ArrayQualifiers>, fixup: bool) -> (res: Result<
    (usize, Vec<char>),
    DemangleError<'s>,
>)
    requires
        inp.wf(),
        full_lo <= lo <= hi <= inp@.len(),
    ensures
        not_non_ascii(res),
        lift(inp@, hi as int, res) == object_pointer_arg(inp@.subrange(lo as int, hi as int), inp@.subrange(full_lo as int, hi as int), template_args@, sign, post_qualifiers@, opt_aq_view(array_qualifiers), *cfg, fixup),
        consumed(res, lo as int, hi as int),
    decreases hi - lo, 4nat,
{
    proof {
        reveal_with_fuel(object_pointer_arg, 1);
        reveal_with_fuel(argument, 1);
        reveal_with_fuel(member_class, 1);
    }
    if sign != Signedness::No || !only_pointers_exec(&post_qualifiers) || array_qualifiers.is_some() {
        return Err(DemangleError::InvalidQualifierForObjectMemberArg(inp.slice(full_lo, hi)));
    }
    let (r, class_name) = demangle_member_class(inp, cfg, lo, hi, template_args, NameKind::ClassOnObjectMemberArgument, fixup)?;
    if !(r < hi && inp.at(r) == '_') {
        return Err(DemangleError::MissingTypeForObjectMemberPointer(inp.slice(r, hi)));
    }
    proof {
        lemma_skip(inp@, r as int, hi as int, 1);
    }
    let empty = ArgVec::new(cfg, None);
    let (r2, a) = demangle_argument(inp, cfg, r + 1, hi, &empty, template_args, fixup)?;
    match a {
        DemangledArg::Plain(member_type, arr) => {
            let mut out = member_type;
            let ghost mt = out@;
            push_lit(&mut out, " ");
            match &arr {
                Some(a) => {
                    if a.inner_post_qualifiers.len() > 0 {
                        push_lit(&mut out, "(");
                        push_text(&mut out, &a.inner_post_qualifiers);
                    }
                },
                None => {},
            }
            push_lit(&mut out, "(");
            push_text(&mut out, &class_name);
            push_lit(&mut out, "::");
            push_text(&mut out, &post_qualifiers);
            push_lit(&mut out, ")");
            match &arr {
                Some(a) => {
                    if a.inner_post_qualifiers.len() > 0 {
                        push_lit(&mut out, ")");
                    }
                    push_text(&mut out, &a.arrays);
                },
                None => {},
            }
            assert(out@ =~= object_pointer_text(mt, opt_aq_view(arr), class_name@, post_qualifiers@));
            Ok((r2, out))
        },
        _ => Err(DemangleError::InvalidTypeForObjectMemberPointer(inp.slice(full_lo, hi))),
    }
}

} // verus!
