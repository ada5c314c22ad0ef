//! Length-prefixed names, method qualifiers, and how a parse result made
//! of positions reads as text.
use vstd::prelude::*;

use crate::demangle_error::{not_non_ascii, DemErr, DemangleError};
use crate::input::Input;
use crate::remainer::{lemma_digit_run_bound, p_number, parse_number};

verus! {

/// A parse result at a position of a window that ends at `hi`, as the text
/// that is left and the view of the value.
pub open spec fn lift<D: View>(s: Seq<char>, hi: int, r: Result<(usize, D), DemangleError>) -> Result<(Seq<char>, D::V), DemErr> {
    match r {
        Ok((p, d)) => Ok((s.subrange(p as int, hi), d@)),
        Err(e) => Err(e@),
    }
}

/// A successful parse result lies in the window `lo..hi`.
pub open spec fn in_window<D>(r: Result<(usize, D), DemangleError>, lo: int, hi: int) -> bool {
    r matches Ok((p, _)) ==> lo <= p <= hi
}

/// A successful parse result consumed at least one character of `lo..hi`.
pub open spec fn consumed<D>(r: Result<(usize, D), DemangleError>, lo: int, hi: int) -> bool {
    r matches Ok((p, _)) ==> lo < p <= hi
}

/// The failure a parse step would report if it did not shorten the text it
/// was given. Every step shortens it, so no demangling reports this through
/// here; the specifications name it only so that their recursion visibly
/// ends.
pub open spec fn no_progress() -> DemErr {
    DemErr::RanOutOfArguments
}

/// Which failure a malformed length-prefixed name is reported as.
#[derive(Clone, Copy, PartialEq, Eq, Debug)]
pub enum NameKind {
    ClassOnDestructor,
    ClassOnConstructor,
    ClassOnOperator,
    ClassOnMethod,
    ClassOnVirtualTable,
    NamespaceOnNamespacedGlobal,
    CustomNameOnArgument,
    CustomNameOnNamespace,
    CustomNameOnTemplate,
    NamespaceOnTemplatedFunction,
    SymbolNameOnTemplateType,
    ClassOnMethodArgument,
    EnumNameForTemplatedValue,
    ClassOnObjectMemberArgument,
}

/// The failure for a malformed name of kind `kind` in `t`.
pub open spec fn name_err(kind: NameKind, t: Seq<char>) -> DemErr {
    match kind {
        NameKind::ClassOnDestructor => DemErr::InvalidClassNameOnDestructor(t),
        NameKind::ClassOnConstructor => DemErr::InvalidClassNameOnConstructor(t),
        NameKind::ClassOnOperator => DemErr::InvalidClassNameOnOperator(t),
        NameKind::ClassOnMethod => DemErr::InvalidClassNameOnMethod(t),
        NameKind::ClassOnVirtualTable => DemErr::InvalidClassNameOnVirtualTable(t),
        NameKind::NamespaceOnNamespacedGlobal => DemErr::InvalidNamespaceOnNamespacedGlobal(t),
        NameKind::CustomNameOnArgument => DemErr::InvalidCustomNameOnArgument(t),
        NameKind::CustomNameOnNamespace => DemErr::InvalidCustomNameOnNamespace(t),
        NameKind::CustomNameOnTemplate => DemErr::InvalidCustomNameOnTemplate(t),
        NameKind::NamespaceOnTemplatedFunction => DemErr::InvalidNamespaceOnTemplatedFunction(t),
        NameKind::SymbolNameOnTemplateType => DemErr::InvalidSymbolNameOnTemplateType(t),
        NameKind::ClassOnMethodArgument => DemErr::InvalidClassNameOnMethodArgument(t),
        NameKind::EnumNameForTemplatedValue => DemErr::InvalidEnumNameForTemplatedValue(t),
        NameKind::ClassOnObjectMemberArgument => DemErr::InvalidClassNameOnObjectMemberArgument(t),
    }
}

/// The failure for a malformed name of kind `kind` in `s`.
pub fn make_name_err<'s>(kind: NameKind, s: &'s str) -> (e: DemangleError<'s>)
    ensures
        e@ == name_err(kind, s@),
        !(e is NonAscii),
{
    match kind {
        NameKind::ClassOnDestructor => DemangleError::InvalidClassNameOnDestructor(s),
        NameKind::ClassOnConstructor => DemangleError::InvalidClassNameOnConstructor(s),
        NameKind::ClassOnOperator => DemangleError::InvalidClassNameOnOperator(s),
        NameKind::ClassOnMethod => DemangleError::InvalidClassNameOnMethod(s),
        NameKind::ClassOnVirtualTable => DemangleError::InvalidClassNameOnVirtualTable(s),
        NameKind::NamespaceOnNamespacedGlobal => DemangleError::InvalidNamespaceOnNamespacedGlobal(s),
        NameKind::CustomNameOnArgument => DemangleError::InvalidCustomNameOnArgument(s),
        NameKind::CustomNameOnNamespace => DemangleError::InvalidCustomNameOnNamespace(s),
        NameKind::CustomNameOnTemplate => DemangleError::InvalidCustomNameOnTemplate(s),
        NameKind::NamespaceOnTemplatedFunction => DemangleError::InvalidNamespaceOnTemplatedFunction(s),
        NameKind::SymbolNameOnTemplateType => DemangleError::InvalidSymbolNameOnTemplateType(s),
        NameKind::ClassOnMethodArgument => DemangleError::InvalidClassNameOnMethodArgument(s),
        NameKind::EnumNameForTemplatedValue => DemangleError::InvalidEnumNameForTemplatedValue(s),
        NameKind::ClassOnObjectMemberArgument => DemangleError::InvalidClassNameOnObjectMemberArgument(s),
    }
}

/// A name written as its length in decimal followed by its characters:
/// what is left, and the name.
pub open spec fn custom_name(t: Seq<char>, kind: NameKind) -> Result<(Seq<char>, Seq<char>), DemErr> {
    match parse_number(t) {
        None => Err(name_err(kind, t)),
        Some((r, length)) => if r.len() < length {
            Err(name_err(kind, t))
        } else {
            Ok((r.skip(length as int), r.take(length as int)))
        },
    }
}

/// Reading a number consumes at least one character.
pub proof fn lemma_parse_number_shorter(t: Seq<char>)
    ensures
        parse_number(t) matches Some((r, _)) ==> r.len() < t.len(),
{
    lemma_digit_run_bound(t);
}

/// Reading a length-prefixed name consumes at least one character.
pub proof fn lemma_custom_name_shorter(t: Seq<char>, kind: NameKind)
    ensures
        custom_name(t, kind) matches Ok((r, _)) ==> r.len() < t.len(),
{
    lemma_parse_number_shorter(t);
}

/// Reads a length-prefixed name at the start of the window `lo..hi`.
pub fn custom_name_in<'s>(inp: &Input<'s>, lo: usize, hi: usize, kind: NameKind) -> (res: Result<(usize, Vec<char>), DemangleError<'s>>)
    requires
        inp.wf(),
        lo <= hi <= inp@.len(),
    ensures
        not_non_ascii(res),
        lift(inp@, hi as int, res) == custom_name(inp@.subrange(lo as int, hi as int), kind),
        consumed(res, lo as int, hi as int),
{
    let ghost t = inp@.subrange(lo as int, hi as int);
    match p_number(inp, lo, hi) {
        None => Err(make_name_err(kind, inp.slice(lo, hi))),
        Some((p, length)) => {
            if hi - p < length {
                Err(make_name_err(kind, inp.slice(lo, hi)))
            } else {
                let e = p + length;
                let name = inp.text(p, e);
                assert(inp@.subrange(p as int, hi as int).skip(length as int) =~= inp@.subrange(e as int, hi as int));
                assert(inp@.subrange(p as int, hi as int).take(length as int) =~= inp@.subrange(p as int, e as int));
                Ok((e, name))
            }
        },
    }
}

/// The `const` qualifier of a method: what is left, and the text to put
/// after the argument list.
pub open spec fn method_qualifier(t: Seq<char>) -> (Seq<char>, Seq<char>) {
    if t.len() > 0 && t[0] == 'C' {
        (t.skip(1), " const"@)
    } else {
        (t, ""@)
    }
}

/// Reads the `const` qualifier of a method at the start of the window
/// `lo..hi`.
pub fn demangle_method_qualifier(inp: &Input, lo: usize, hi: usize) -> (r: (usize, &'static str))
    requires
        inp.wf(),
        lo <= hi <= inp@.len(),
    ensures
        lo <= r.0 <= hi,
        method_qualifier(inp@.subrange(lo as int, hi as int)) == (inp@.subrange(r.0 as int, hi as int), r.1@),
{
    if lo < hi && inp.at(lo) == 'C' {
        assert(inp@.subrange(lo as int, hi as int).skip(1) =~= inp@.subrange(lo + 1, hi as int));
        (lo + 1, " const")
    } else {
        (lo, "")
    }
}

} // verus!
