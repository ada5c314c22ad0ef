//! Demangling of templates and of the values they take.
use vstd::prelude::*;

use crate::dem::{consumed, custom_name, custom_name_in, lemma_custom_name_shorter, lift, no_progress, NameKind};
use crate::dem_arg::{argument, demangle_argument, DArg, DemangledArg};
use crate::dem_arg_list::{av_get, av_join, av_new, av_push, opt_text_view, ArgVec, ArgVecV};
use crate::dem_namespace::{demangle_namespaces, namespaces};
use crate::demangle_config::DemangleConfig;
use crate::demangle_error::{not_non_ascii, DemErr, DemangleError};
use crate::input::{lemma_skip, Input};
use crate::remainer::{
    p_digit, p_first, p_number, p_number_maybe_multi_digit_in, parse_digit, parse_first, parse_number,
    parse_number_maybe_multi_digit,
};
use crate::str_cutter::{c_maybe_strip_prefix, maybe_strip_prefix};
use crate::text::{dec_text, ends_with_char, lit, push_dec, push_lit, push_text};

verus! {

/// `k` more template arguments from the start of `t`, onto `types`: a type
/// after `Z`, a value otherwise.
#[verifier::opaque]
pub open spec fn template_types_loop(t: Seq<char>, k: nat, types: ArgVecV, template_args: ArgVecV, cfg: DemangleConfig, fixup: bool) -> Result<
    (Seq<char>, ArgVecV),
    DemErr,
>
    decreases t.len(), 4nat,
{
    if k == 0 {
        Ok((t, types))
    } else {
        let step = if t.len() > 0 && t[0] == 'Z' {
            match argument(t.skip(1), types, template_args, cfg, fixup) {
                Err(e) => Err(e),
                Ok((r, a)) => Ok((r, a, true)),
            }
        } else {
            match templated_value(t, template_args, cfg, fixup) {
                Err(e) => Err(e),
                Ok((r, a)) => Ok((r, a, false)),
            }
        };
        match step {
            Err(e) => Err(e),
            Ok((r, a, allow_data_after_ellipsis)) => match av_push(types, a, t, r, allow_data_after_ellipsis) {
                Err(e) => Err(e),
                Ok((types2, _)) => if r.len() >= t.len() {
                    Err(no_progress())
                } else {
                    template_types_loop(r, (k - 1) as nat, types2, template_args, cfg, fixup)
                },
            },
        }
    }
}

/// The text of a template argument list, `<...>`, with a space before the
/// closing `>` when the last argument ends with one.
pub open spec fn template_brackets(args: Seq<char>) -> Seq<char> {
    "<"@ + args + (if ends_with_char(args, '>') { " >"@ } else { ">"@ })
}

/// A templated class, after its `t`: what is left, its text, and its plain
/// name.
#[verifier::opaque]
pub open spec fn template(t: Seq<char>, template_args: ArgVecV, cfg: DemangleConfig, fixup: bool) -> Result<
    (Seq<char>, (Seq<char>, Seq<char>)),
    DemErr,
>
    decreases t.len(), 1nat,
{
    match custom_name(t, NameKind::CustomNameOnTemplate) {
        Err(e) => Err(e),
        Ok((r, class_name)) => match parse_digit(r) {
            None => Err(DemErr::InvalidTemplateCount(r)),
            Some((r2, count)) => if count == 0 {
                Err(DemErr::TemplateReturnCountIsZero(r))
            } else {
                proof {
                    lemma_custom_name_shorter(t, NameKind::CustomNameOnTemplate);
                }
                match template_types_loop(r2, count as nat, av_new(cfg, None), template_args, cfg, fixup) {
                    Err(e) => Err(e),
                    Ok((r3, types)) => Ok((r3, (class_name + template_brackets(av_join(types)), class_name))),
                }
            },
        },
    }
}

/// The leading qualifiers of a templated value: what is left, whether one
/// was a pointer and whether one was a reference.
pub open spec fn value_qualifiers(t: Seq<char>) -> (Seq<char>, bool, bool)
    decreases t.len(),
{
    if t.len() > 0 && (t[0] == 'P' || t[0] == 'R' || t[0] == 'C' || t[0] == 'S' || t[0] == 'U') {
        let (r, p, rf) = value_qualifiers(t.skip(1));
        (r, p || t[0] == 'P', rf || t[0] == 'R')
    } else {
        (t, false, false)
    }
}

/// Reading value qualifiers never lengthens a text.
pub proof fn lemma_value_qualifiers_suffix(t: Seq<char>)
    ensures
        value_qualifiers(t).0.len() <= t.len(),
    decreases t.len(),
{
    if t.len() > 0 && (t[0] == 'P' || t[0] == 'R' || t[0] == 'C' || t[0] == 'S' || t[0] == 'U') {
        lemma_value_qualifiers_suffix(t.skip(1));
    }
}

/// Whether `n` is the number of a `char`.
pub open spec fn is_char_number(n: usize) -> bool {
    n <= 0x10FFFF && !(0xD800 <= n <= 0xDFFF)
}

/// A number, with `m` for minus; after `_`, the number is read as for
/// `parse_number_maybe_multi_digit`.
pub open spec fn integral_value(r1: Seq<char>, allow_underscore: bool) -> Result<(Seq<char>, Seq<char>), DemErr> {
    let (r2, negative) = maybe_strip_prefix(r1, 'm');
    let n = if allow_underscore && r2.len() > 0 && r2[0] == '_' {
        match parse_number_maybe_multi_digit(r2.skip(1)) {
            None => Err(DemErr::InvalidValueForIntegralTemplated(r2.skip(1))),
            Some(x) => Ok(x),
        }
    } else {
        match parse_number(r2) {
            None => Err(DemErr::InvalidValueForIntegralTemplated(r2)),
            Some(x) => Ok(x),
        }
    };
    match n {
        Err(e) => Err(e),
        Ok((r3, number)) => Ok((r3, (if negative { "-"@ } else { seq![] }) + dec_text(number as nat))),
    }
}

/// A template number after `m` is the same number with a minus sign in
/// front.
pub proof fn lemma_negative_integral_value(r: Seq<char>, allow_underscore: bool)
    requires
        !(r.len() > 0 && r[0] == 'm'),
    ensures
        integral_value(seq!['m'] + r, allow_underscore) == match integral_value(r, allow_underscore) {
            Ok((r3, text)) => Ok::<(Seq<char>, Seq<char>), DemErr>((r3, "-"@ + text)),
            Err(e) => Err(e),
        },
{
    assert((seq!['m'] + r).skip(1) =~= r);
    let e: Seq<char> = seq![];
    assert(forall|x: Seq<char>| e + x == x) by {
        assert forall|x: Seq<char>| e + x == x by {
            assert(e + x =~= x);
        }
    }
}

/// A value that a template takes.
#[verifier::opaque]
pub open spec fn templated_value(t: Seq<char>, template_args: ArgVecV, cfg: DemangleConfig, fixup: bool) -> Result<(Seq<char>, DArg), DemErr>
    decreases t.len(), 3nat,
{
    let (r, is_pointer, is_reference) = value_qualifiers(t);
    proof {
        lemma_value_qualifiers_suffix(t);
    }
    if is_pointer || is_reference {
        match argument(r, av_new(cfg, None), av_new(cfg, None), cfg, fixup) {
            Err(e) => Err(e),
            Ok((aux, a)) => match a {
                DArg::Plain(_, _) => match custom_name(aux, NameKind::SymbolNameOnTemplateType) {
                    Err(e) => Err(e),
                    Ok((aux2, symbol)) => Ok((aux2, DArg::Plain((if is_pointer { "&"@ } else { seq![] }) + symbol, None))),
                },
                _ => Err(DemErr::InvalidTemplatedPointerReferenceValue(r)),
            },
        }
    } else {
        match parse_first(r) {
            None => Err(DemErr::RanOutOfArguments),
            Some((r1, c)) => if c == 'c' || c == 'w' {
                match parse_number(r1) {
                    None => Err(DemErr::InvalidTemplatedNumberForCharacterValue(r1)),
                    Some((r2, number)) => if is_char_number(number) {
                        Ok((r2, DArg::Plain("'"@ + seq![number as char] + "'"@, None)))
                    } else {
                        Err(DemErr::InvalidTemplatedCharacterValue(r2, number))
                    },
                }
            } else if c == 's' || c == 'i' || c == 'l' || c == 'x' {
                if r1.len() > 0 && r1[0] == 'Y' {
                    match parse_digit(r1.skip(1)) {
                        None => Err(DemErr::MissingLookbackIndexForTemplatedValue(t)),
                        Some((y2, index)) => match parse_digit(y2) {
                            None => Err(DemErr::MissingLookbackSecondDigitForTemplatedValue(t)),
                            Some((y3, digit1)) => if digit1 != 1 {
                                Err(DemErr::InvalidLookbackSecondDigitForTemplatedValue(t, digit1))
                            } else {
                                match av_get(template_args, index as int) {
                                    None => Err(DemErr::IndexTooBigForYArgument(t, index)),
                                    Some(v) => Ok((y3, DArg::Plain(v, None))),
                                }
                            },
                        },
                    }
                } else {
                    match integral_value(r1, true) {
                        Err(e) => Err(e),
                        Ok((r3, text)) => Ok((r3, DArg::Plain(text, None))),
                    }
                }
            } else if c == 'b' {
                if r1.len() > 0 && r1[0] == '1' {
                    Ok((r1.skip(1), DArg::Plain("true"@, None)))
                } else if r1.len() > 0 && r1[0] == '0' {
                    Ok((r1.skip(1), DArg::Plain("false"@, None)))
                } else {
                    Err(DemErr::InvalidTemplatedBoolean(r1))
                }
            } else if '1' <= c <= '9' {
                match custom_name(r, NameKind::EnumNameForTemplatedValue) {
                    Err(e) => Err(e),
                    Ok((r2, _enum_name)) => match integral_value(r2, false) {
                        Err(e) => Err(e),
                        Ok((r3, text)) => Ok((r3, DArg::Plain(text, None))),
                    },
                }
            } else {
                Err(DemErr::InvalidTypeValueForTemplated(c, r1))
            },
        }
    }
}

/// A bool template value reads as `false` after `b0` and as `true` after
/// `b1`, whatever follows it.
pub proof fn lemma_bool_template_values(rest: Seq<char>, template_args: ArgVecV, cfg: DemangleConfig, fixup: bool)
    ensures
        templated_value(seq!['b', '0'] + rest, template_args, cfg, fixup) == Ok::<(Seq<char>, DArg), DemErr>((rest, DArg::Plain("false"@, None))),
        templated_value(seq!['b', '1'] + rest, template_args, cfg, fixup) == Ok::<(Seq<char>, DArg), DemErr>((rest, DArg::Plain("true"@, None))),
        "false"@ != "true"@,
{
    reveal_with_fuel(templated_value, 1);
    reveal_with_fuel(argument, 1);
    reveal_strlit("false");
    reveal_strlit("true");
    assert("false"@[0] != "true"@[0]);
    let t0 = seq!['b', '0'] + rest;
    let t1 = seq!['b', '1'] + rest;
    assert(value_qualifiers(t0) == (t0, false, false));
    assert(value_qualifiers(t1) == (t1, false, false));
    assert(t0.skip(1) =~= seq!['0'] + rest);
    assert(t1.skip(1) =~= seq!['1'] + rest);
    assert((seq!['0'] + rest).skip(1) =~= rest);
    assert((seq!['1'] + rest).skip(1) =~= rest);
}

/// The template arguments of a templated function, after `H`: their count,
/// the arguments, `_`, then the class or namespace the function belongs
/// to, if one follows.
#[verifier::opaque]
pub open spec fn template_with_return_type(t: Seq<char>, cfg: DemangleConfig, fixup: bool) -> Result<
    (Seq<char>, (ArgVecV, Option<Seq<char>>)),
    DemErr,
> {
    match parse_digit(t) {
        None => Err(DemErr::InvalidTemplateReturnCount(t)),
        Some((r, count)) => if count == 0 {
            Err(DemErr::TemplateReturnCountIsZero(t))
        } else {
            match template_types_loop(r, count as nat, av_new(cfg, None), av_new(cfg, None), cfg, fixup) {
                Err(e) => Err(e),
                Ok((r, types)) => if !(r.len() > 0 && r[0] == '_') {
                    Err(DemErr::MalformedTemplateWithReturnType(r))
                } else {
                    let r = r.skip(1);
                    if r.len() > 0 && r[0] == 'Q' {
                        match namespaces(r.skip(1), av_new(cfg, None), cfg, fixup) {
                            Err(e) => Err(e),
                            Ok((r2, (ns, _trailing))) => Ok((r2, (types, Some(ns)))),
                        }
                    } else if r.len() > 0 && '1' <= r[0] <= '9' {
                        match custom_name(r, NameKind::NamespaceOnTemplatedFunction) {
                            Err(e) => Err(e),
                            Ok((r2, ns)) => Ok((r2, (types, Some(ns)))),
                        }
                    } else {
                        Ok((r, (types, None)))
                    }
                },
            }
        },
    }
}

/// `char::from_u32`: the character with number `n`, when `n` is the number
/// of a character, that is at most `0x10FFFF` and not in `0xD800..=0xDFFF`.
#[verifier::external_body]
fn char_from_u32(n: u32) -> (r: Option<char>)
    ensures
        r == (if is_char_number(n as usize) { Some(n as char) } else { None }),
{
    char::from_u32(n)
}

/// Appends `<args>` to `out`, with a space before the `>` when `args` ends
/// with one.
pub fn push_template_brackets(out: &mut Vec<char>, args: &Vec<char>)
    ensures
        final(out)@ == old(out)@ + template_brackets(args@),
{
    push_lit(out, "<");
    push_text(out, args);
    let n = args.len();
    if n > 0 && args[n - 1] == '>' {
        push_lit(out, " >");
    } else {
        push_lit(out, ">");
    }
}

/// Reads `count` template arguments at the start of `lo..hi`: a type after
/// `Z`, a value otherwise.
pub fn demangle_template_types_impl<'s>(inp: &Input<'s>, cfg: &DemangleConfig, lo: usize, hi: usize, count: usize, template_args: &ArgVec, fixup: bool) -> (res: Result<
    (usize, ArgVec),
    DemangleError<'s>,
>)
    requires
        inp.wf(),
        lo <= hi <= inp@.len(),
    ensures
        not_non_ascii(res),
        lift(inp@, hi as int, res) == template_types_loop(inp@.subrange(lo as int, hi as int), count as nat, av_new(*cfg, None), template_args@, *cfg, fixup),
        res matches Ok((p, av)) ==> lo <= p <= hi && av.wf(),
    decreases hi - lo, 4nat,
{
    proof {
        reveal_with_fuel(template_types_loop, 1);
        reveal_with_fuel(argument, 1);
        reveal_with_fuel(templated_value, 1);
    }
    let ghost whole = template_types_loop(inp@.subrange(lo as int, hi as int), count as nat, av_new(*cfg, None), template_args@, *cfg, fixup);
    let mut types = ArgVec::new(cfg, None);
    let mut p = lo;
    let mut k = count;
    while k > 0
        invariant
            inp.wf(),
            lo <= p <= hi <= inp@.len(),
            types.wf(),
            whole == template_types_loop(inp@.subrange(lo as int, hi as int), count as nat, av_new(*cfg, None), template_args@, *cfg, fixup),
            template_types_loop(inp@.subrange(p as int, hi as int), k as nat, types@, template_args@, *cfg, fixup) == whole,
        decreases k,
    {
        proof {
            reveal_with_fuel(template_types_loop, 1);
            reveal_with_fuel(argument, 1);
            reveal_with_fuel(templated_value, 1);
        }
        let (r, a, allow_data_after_ellipsis) = if p < hi && inp.at(p) == 'Z' {
            proof {
                lemma_skip(inp@, p as int, hi as int, 1);
            }
            let (r, a) = demangle_argument(inp, cfg, p + 1, hi, &types, template_args, fixup)?;
            (r, a, true)
        } else {
            let (r, a) = demangle_templated_value(inp, cfg, p, hi, template_args, fixup)?;
            (r, a, false)
        };
        types.push(inp, a, p, r, hi, allow_data_after_ellipsis)?;
        p = r;
        k = k - 1;
    }
    Ok((p, types))
}

/// Reads a templated class, after its `t`, at the start of `lo..hi`: its
/// text and its plain name.
pub fn demangle_template<'s>(inp: &Input<'s>, cfg: &DemangleConfig, lo: usize, hi: usize, template_args: &ArgVec, fixup: bool) -> (res: Result<
    (usize, (Vec<char>, Vec<char>)),
    DemangleError<'s>,
>)
    requires
        inp.wf(),
        lo <= hi <= inp@.len(),
    ensures
        not_non_ascii(res),
        lift(inp@, hi as int, res) == template(inp@.subrange(lo as int, hi as int), template_args@, *cfg, fixup),
        consumed(res, lo as int, hi as int),
    decreases hi - lo, 1nat,
{
    proof {
        reveal_with_fuel(template, 1);
        reveal_with_fuel(template_types_loop, 1);
        reveal_with_fuel(argument, 1);
        reveal_with_fuel(templated_value, 1);
    }
    let (r, class_name) = custom_name_in(inp, lo, hi, NameKind::CustomNameOnTemplate)?;
    match p_digit(inp, r, hi) {
        None => Err(DemangleError::InvalidTemplateCount(inp.slice(r, hi))),
        Some((r2, count)) => {
            if count == 0 {
                return Err(DemangleError::TemplateReturnCountIsZero(inp.slice(r, hi)));
            }
            let (r3, types) = demangle_template_types_impl(inp, cfg, r2, hi, count, template_args, fixup)?;
            let templated = types.join();
            let mut tmpl = class_name.clone();
            push_template_brackets(&mut tmpl, &templated);
            Ok((r3, (tmpl, class_name)))
        },
    }
}

/// Reads a number, with `m` for minus, at the start of `lo..hi`; after `_`
/// when `allow_underscore` holds, it is read as one digit or several ended
/// by `_`.
fn demangle_integral_value<'s>(inp: &Input<'s>, lo: usize, hi: usize, allow_underscore: bool) -> (res: Result<(usize, Vec<char>), DemangleError<'s>>)
    requires
        inp.wf(),
        lo <= hi <= inp@.len(),
    ensures
        not_non_ascii(res),
        lift(inp@, hi as int, res) == integral_value(inp@.subrange(lo as int, hi as int), allow_underscore),
        consumed(res, lo as int, hi as int),
{
    let (r2, negative) = c_maybe_strip_prefix(inp, lo, hi, 'm');
    let n = if allow_underscore && r2 < hi && inp.at(r2) == '_' {
        proof {
            lemma_skip(inp@, r2 as int, hi as int, 1);
        }
        match p_number_maybe_multi_digit_in(inp, r2 + 1, hi) {
            None => {
                return Err(DemangleError::InvalidValueForIntegralTemplated(inp.slice(r2 + 1, hi)));
            },
            Some(x) => x,
        }
    } else {
        match p_number(inp, r2, hi) {
            None => {
                return Err(DemangleError::InvalidValueForIntegralTemplated(inp.slice(r2, hi)));
            },
            Some(x) => x,
        }
    };
    let (r3, number) = n;
    let mut out = Vec::new();
    if negative {
        push_lit(&mut out, "-");
    }
    push_dec(&mut out, number as u128);
    assert(out@ =~= (if negative { "-"@ } else { seq![] }) + dec_text(number as nat));
    Ok((r3, out))
}

/// Reads a value that a template takes, at the start of `lo..hi`.
#[verifier::spinoff_prover]
#[verifier::rlimit(100)]
pub fn demangle_templated_value<'s>(inp: &Input<'s>, cfg: &DemangleConfig, lo: usize, hi: usize, template_args: &ArgVec, fixup: bool) -> (res: Result<
    (usize, DemangledArg),
    DemangleError<'s>,
>)
    requires
        inp.wf(),
        lo <= hi <= inp@.len(),
    ensures
        not_non_ascii(res),
        lift(inp@, hi as int, res) == templated_value(inp@.subrange(lo as int, hi as int), template_args@, *cfg, fixup),
        consumed(res, lo as int, hi as int),
    decreases hi - lo, 3nat,
{
    proof {
        reveal_with_fuel(templated_value, 1);
        reveal_with_fuel(argument, 1);
    }
    let ghost t = inp@.subrange(lo as int, hi as int);
    let mut r = lo;
    let mut is_pointer = false;
    let mut is_reference = false;
    while r < hi && (inp.at(r) == 'P' || inp.at(r) == 'R' || inp.at(r) == 'C' || inp.at(r) == 'S' || inp.at(r) == 'U')
        invariant
            inp.wf(),
            lo <= r <= hi <= inp@.len(),
            t == inp@.subrange(lo as int, hi as int),
            value_qualifiers(t) == ({
                let v = value_qualifiers(inp@.subrange(r as int, hi as int));
                (v.0, v.1 || is_pointer, v.2 || is_reference)
            }),
        decreases hi - r,
    {
        proof {
            lemma_skip(inp@, r as int, hi as int, 1);
        }
        let c = inp.at(r);
        if c == 'P' {
            is_pointer = true;
        }
        if c == 'R' {
            is_reference = true;
        }
        r = r + 1;
    }
    if is_pointer || is_reference {
        let e1 = ArgVec::new(cfg, None);
        let e2 = ArgVec::new(cfg, None);
        let (aux, a) = demangle_argument(inp, cfg, r, hi, &e1, &e2, fixup)?;
        match a {
            DemangledArg::Plain(_, _) => {
                let (aux2, symbol) = custom_name_in(inp, aux, hi, NameKind::SymbolNameOnTemplateType)?;
                let mut out = Vec::new();
                if is_pointer {
                    push_lit(&mut out, "&");
                }
                push_text(&mut out, &symbol);
                assert(out@ =~= (if is_pointer { "&"@ } else { seq![] }) + symbol@);
                Ok((aux2, DemangledArg::Plain(out, None)))
            },
            _ => Err(DemangleError::InvalidTemplatedPointerReferenceValue(inp.slice(r, hi))),
        }
    } else {
        match p_first(inp, r, hi) {
            None => Err(DemangleError::RanOutOfArguments),
            Some((r1, c)) => {
                if c == 'c' || c == 'w' {
                    match p_number(inp, r1, hi) {
                        None => Err(DemangleError::InvalidTemplatedNumberForCharacterValue(inp.slice(r1, hi))),
                        Some((r2, number)) => {
                            if number > 0xFFFF_FFFF {
                                return Err(DemangleError::InvalidTemplatedCharacterValue(inp.slice(r2, hi), number));
                            }
                            match char_from_u32(number as u32) {
                                None => Err(DemangleError::InvalidTemplatedCharacterValue(inp.slice(r2, hi), number)),
                                Some(ch) => {
                                    let mut out = Vec::new();
                                    push_lit(&mut out, "'");
                                    out.push(ch);
                                    push_lit(&mut out, "'");
                                    assert(out@ =~= "'"@ + seq![number as char] + "'"@);
                                    Ok((r2, DemangledArg::Plain(out, None)))
                                },
                            }
                        },
                    }
                } else if c == 's' || c == 'i' || c == 'l' || c == 'x' {
                    if r1 < hi && inp.at(r1) == 'Y' {
                        proof {
                            lemma_skip(inp@, r1 as int, hi as int, 1);
                        }
                        match p_digit(inp, r1 + 1, hi) {
                            None => Err(DemangleError::MissingLookbackIndexForTemplatedValue(inp.slice(lo, hi))),
                            Some((y2, index)) => match p_digit(inp, y2, hi) {
                                None => Err(DemangleError::MissingLookbackSecondDigitForTemplatedValue(inp.slice(lo, hi))),
                                Some((y3, digit1)) => {
                                    if digit1 != 1 {
                                        Err(DemangleError::InvalidLookbackSecondDigitForTemplatedValue(inp.slice(lo, hi), digit1))
                                    } else {
                                        match template_args.get(index) {
                                            None => Err(DemangleError::IndexTooBigForYArgument(inp.slice(lo, hi), index)),
                                            Some(v) => Ok((y3, DemangledArg::Plain(v, None))),
                                        }
                                    }
                                },
                            },
                        }
                    } else {
                        let (r3, text) = demangle_integral_value(inp, r1, hi, true)?;
                        Ok((r3, DemangledArg::Plain(text, None)))
                    }
                } else if c == 'b' {
                    if r1 < hi && inp.at(r1) == '1' {
                        proof {
                            lemma_skip(inp@, r1 as int, hi as int, 1);
                        }
                        Ok((r1 + 1, DemangledArg::Plain(lit("true"), None)))
                    } else if r1 < hi && inp.at(r1) == '0' {
                        proof {
                            lemma_skip(inp@, r1 as int, hi as int, 1);
                        }
                        Ok((r1 + 1, DemangledArg::Plain(lit("false"), None)))
                    } else {
                        Err(DemangleError::InvalidTemplatedBoolean(inp.slice(r1, hi)))
                    }
                } else if '1' <= c && c <= '9' {
                    let (r2, _enum_name) = custom_name_in(inp, r, hi, NameKind::EnumNameForTemplatedValue)?;
                    let (r3, text) = demangle_integral_value(inp, r2, hi, false)?;
                    Ok((r3, DemangledArg::Plain(text, None)))
                } else {
                    Err(DemangleError::InvalidTypeValueForTemplated(c, inp.slice(r1, hi)))
                }
            },
        }
    }
}

/// Reads the template arguments of a templated function, after `H`, at the
/// start of `lo..hi`: the arguments, and the class or namespace the
/// function belongs to when one follows them.
pub fn demangle_template_with_return_type<'s>(inp: &Input<'s>, cfg: &DemangleConfig, lo: usize, hi: usize, fixup: bool) -> (res: Result<
    (usize, (ArgVec, Option<Vec<char>>)),
    DemangleError<'s>,
>)
    requires
        inp.wf(),
        lo <= hi <= inp@.len(),
    ensures
        not_non_ascii(res),
        match template_with_return_type(inp@.subrange(lo as int, hi as int), *cfg, fixup) {
            Ok((r, (types, ns))) => res matches Ok((p, (av, ns2))) && lo <= p <= hi && r == inp@.subrange(p as int, hi as int)
                && av@ == types && av.wf() && opt_text_view(ns2) == ns,
            Err(e) => res matches Err(e2) && e2@ == e,
        },
{
    proof {
        reveal_with_fuel(template_with_return_type, 1);
        reveal_with_fuel(namespaces, 1);
        reveal_with_fuel(template_types_loop, 1);
    }
    let (r, count) = match p_digit(inp, lo, hi) {
        None => {
            return Err(DemangleError::InvalidTemplateReturnCount(inp.slice(lo, hi)));
        },
        Some(x) => x,
    };
    if count == 0 {
        return Err(DemangleError::TemplateReturnCountIsZero(inp.slice(lo, hi)));
    }
    let empty = ArgVec::new(cfg, None);
    let (r, types) = demangle_template_types_impl(inp, cfg, r, hi, count, &empty, fixup)?;
    if !(r < hi && inp.at(r) == '_') {
        return Err(DemangleError::MalformedTemplateWithReturnType(inp.slice(r, hi)));
    }
    proof {
        lemma_skip(inp@, r as int, hi as int, 1);
    }
    let r = r + 1;
    if r < hi && inp.at(r) == 'Q' {
        proof {
            lemma_skip(inp@, r as int, hi as int, 1);
        }
        let empty2 = ArgVec::new(cfg, None);
        let (r2, (ns, _trailing)) = demangle_namespaces(inp, cfg, r + 1, hi, &empty2, fixup)?;
        Ok((r2, (types, Some(ns))))
    } else if r < hi && '1' <= inp.at(r) && inp.at(r) <= '9' {
        let (r2, ns) = custom_name_in(inp, r, hi, NameKind::NamespaceOnTemplatedFunction)?;
        Ok((r2, (types, Some(ns))))
    } else {
        Ok((r, (types, None)))
    }
}

} // verus!
