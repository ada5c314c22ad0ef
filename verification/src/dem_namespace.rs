//! Demangling of nested names: `Q<count><name>...`.
use vstd::prelude::*;

use crate::dem::{consumed, custom_name, custom_name_in, lemma_parse_number_shorter, lift, no_progress, NameKind};
use crate::dem_arg_list::{ArgVec, ArgVecV};
use crate::dem_template::{demangle_template, template};
use crate::demangle_config::DemangleConfig;
use crate::demangle_error::{not_non_ascii, DemErr, DemangleError};
use crate::input::{lemma_skip, Input};
use crate::remainer::{digit_value, p_digit, p_number, parse_digit, parse_number};
use crate::text::{push_lit, push_text};

verus! {

/// The count of names after `Q`: one digit, or several between `_` and `_`.
pub open spec fn namespace_count(t: Seq<char>) -> Option<(Seq<char>, usize)> {
    if t.len() > 0 && t[0] == '_' {
        match parse_number(t.skip(1)) {
            Some((r, d)) => if r.len() > 0 && r[0] == '_' {
                Some((r.skip(1), d))
            } else {
                None
            },
            None => None,
        }
    } else {
        parse_digit(t)
    }
}

/// Reading the count of nested names consumes at least one character.
pub proof fn lemma_namespace_count_shorter(t: Seq<char>)
    ensures
        namespace_count(t) matches Some((r, _)) ==> r.len() < t.len(),
{
    if t.len() > 0 && t[0] == '_' {
        lemma_parse_number_shorter(t.skip(1));
    }
}

/// `t` without its leading underscores.
pub open spec fn trim_start_underscores(t: Seq<char>) -> Seq<char>
    decreases t.len(),
{
    if t.len() > 0 && t[0] == '_' {
        trim_start_underscores(t.skip(1))
    } else {
        t
    }
}

/// Dropping leading underscores never lengthens a text.
pub proof fn lemma_trim_start_underscores_suffix(t: Seq<char>)
    ensures
        trim_start_underscores(t).len() <= t.len(),
    decreases t.len(),
{
    if t.len() > 0 && t[0] == '_' {
        lemma_trim_start_underscores_suffix(t.skip(1));
    }
}

/// `k` more names from the start of `t`, each a template or a
/// length-prefixed name, after any underscores; they are added to `acc`
/// with `::` between them. Gives what is left, the names, and the plain
/// name of the last one.
#[verifier::opaque]
pub open spec fn namespaces_loop(t: Seq<char>, k: nat, acc: Seq<char>, trailing: Seq<char>, template_args: ArgVecV, cfg: DemangleConfig, fixup: bool) -> Result<
    (Seq<char>, (Seq<char>, Seq<char>)),
    DemErr,
>
    decreases t.len(), 1nat,
{
    if k == 0 {
        Ok((t, (acc, trailing)))
    } else {
        let acc1 = if acc.len() > 0 { acc + "::"@ } else { acc };
        let t1 = trim_start_underscores(t);
        proof {
            lemma_trim_start_underscores_suffix(t);
        }
        let piece = if t1.len() > 0 && t1[0] == 't' {
            match template(t1.skip(1), template_args, cfg, fixup) {
                Err(e) => Err(e),
                Ok((r, (tmpl, typ))) => Ok((r, tmpl, typ)),
            }
        } else {
            match custom_name(t1, NameKind::CustomNameOnNamespace) {
                Err(e) => Err(e),
                Ok((r, ns)) => Ok((r, ns, ns)),
            }
        };
        match piece {
            Err(e) => Err(e),
            Ok((r, n, typ)) => if r.len() >= t.len() {
                Err(no_progress())
            } else {
                namespaces_loop(r, (k - 1) as nat, acc1 + n, typ, template_args, cfg, fixup)
            },
        }
    }
}

/// Nested names, after their `Q`: what is left, the names joined by `::`,
/// and the plain name of the last one.
#[verifier::opaque]
pub open spec fn namespaces(t: Seq<char>, template_args: ArgVecV, cfg: DemangleConfig, fixup: bool) -> Result<
    (Seq<char>, (Seq<char>, Seq<char>)),
    DemErr,
>
    decreases t.len(), 1nat,
{
    match namespace_count(t) {
        None => Err(DemErr::InvalidNamespaceCount(t)),
        Some((r, count)) => if count == 0 {
            Err(DemErr::InvalidNamespaceCount(t))
        } else {
            proof {
                lemma_namespace_count_shorter(t);
            }
            namespaces_loop(r, count as nat, seq![], seq![], template_args, cfg, fixup)
        },
    }
}

/// An underscore before a nested name is skipped: putting one in front of
/// the next of `k` names changes nothing, when those names demangle.
pub proof fn lemma_underscore_before_nested_name(t: Seq<char>, k: nat, acc: Seq<char>, trailing: Seq<char>, template_args: ArgVecV, cfg: DemangleConfig, fixup: bool)
    requires
        k > 0,
        namespaces_loop(t, k, acc, trailing, template_args, cfg, fixup) is Ok,
    ensures
        namespaces_loop(seq!['_'] + t, k, acc, trailing, template_args, cfg, fixup) == namespaces_loop(t, k, acc, trailing, template_args, cfg, fixup),
{
    reveal_with_fuel(namespaces_loop, 1);
    reveal_with_fuel(template, 1);
    let u = seq!['_'] + t;
    assert(u.skip(1) =~= t);
    assert(trim_start_underscores(u) == trim_start_underscores(t));
}

/// An underscore between a one-digit count of nested names and the first
/// of them is skipped, when the names demangle.
pub proof fn lemma_underscore_after_count(d: char, t: Seq<char>, template_args: ArgVecV, cfg: DemangleConfig, fixup: bool)
    requires
        '1' <= d <= '9',
        namespaces(seq![d] + t, template_args, cfg, fixup) is Ok,
    ensures
        namespaces(seq![d, '_'] + t, template_args, cfg, fixup) == namespaces(seq![d] + t, template_args, cfg, fixup),
{
    reveal_with_fuel(namespaces, 1);
    reveal_with_fuel(namespaces_loop, 1);
    assert((seq![d] + t).skip(1) =~= t);
    assert((seq![d, '_'] + t).skip(1) =~= seq!['_'] + t);
    let count = digit_value(d) as nat;
    assert(count > 0);
    lemma_underscore_before_nested_name(t, count, seq![], seq![], template_args, cfg, fixup);
}

/// Reads nested names, after their `Q`, at the start of `lo..hi`: the names
/// joined by `::` and the plain name of the last one.
pub fn demangle_namespaces<'s>(inp: &Input<'s>, cfg: &DemangleConfig, lo: usize, hi: usize, template_args: &ArgVec, fixup: bool) -> (res: Result<
    (usize, (Vec<char>, Vec<char>)),
    DemangleError<'s>,
>)
    requires
        inp.wf(),
        lo <= hi <= inp@.len(),
    ensures
        not_non_ascii(res),
        lift(inp@, hi as int, res) == namespaces(inp@.subrange(lo as int, hi as int), template_args@, *cfg, fixup),
        consumed(res, lo as int, hi as int),
    decreases hi - lo, 1nat,
{
    proof {
        reveal_with_fuel(namespaces, 1);
        reveal_with_fuel(namespaces_loop, 1);
        reveal_with_fuel(template, 1);
    }
    let ghost t = inp@.subrange(lo as int, hi as int);
    let count = if lo < hi && inp.at(lo) == '_' {
        proof {
            lemma_skip(inp@, lo as int, hi as int, 1);
        }
        match p_number(inp, lo + 1, hi) {
            Some((r, d)) => {
                if r < hi && inp.at(r) == '_' {
                    proof {
                        lemma_skip(inp@, r as int, hi as int, 1);
                    }
                    Some((r + 1, d))
                } else {
                    None
                }
            },
            None => None,
        }
    } else {
        p_digit(inp, lo, hi)
    };
    let (r, count) = match count {
        None => {
            return Err(DemangleError::InvalidNamespaceCount(inp.slice(lo, hi)));
        },
        Some(x) => x,
    };
    if count == 0 {
        return Err(DemangleError::InvalidNamespaceCount(inp.slice(lo, hi)));
    }
    let ghost whole = namespaces(t, template_args@, *cfg, fixup);
    let mut names: Vec<char> = Vec::new();
    let mut trailing: Vec<char> = Vec::new();
    let mut p = r;
    let mut k = count;
    while k > 0
        invariant
            inp.wf(),
            lo < p <= hi <= inp@.len(),
            whole == namespaces(inp@.subrange(lo as int, hi as int), template_args@, *cfg, fixup),
            namespaces_loop(inp@.subrange(p as int, hi as int), k as nat, names@, trailing@, template_args@, *cfg, fixup) == whole,
        decreases k,
    {
        proof {
            reveal_with_fuel(namespaces_loop, 1);
            reveal_with_fuel(template, 1);
        }
        let ghost t0 = inp@.subrange(p as int, hi as int);
        if names.len() > 0 {
            push_lit(&mut names, "::");
        }
        let mut q = p;
        while q < hi && inp.at(q) == '_'
            invariant
                inp.wf(),
                p <= q <= hi <= inp@.len(),
                trim_start_underscores(inp@.subrange(q as int, hi as int)) == trim_start_underscores(t0),
                t0 == inp@.subrange(p as int, hi as int),
            decreases hi - q,
        {
            proof {
                lemma_skip(inp@, q as int, hi as int, 1);
            }
            q = q + 1;
        }
        assert(trim_start_underscores(inp@.subrange(q as int, hi as int)) == inp@.subrange(q as int, hi as int));
        if q < hi && inp.at(q) == 't' {
            proof {
                lemma_skip(inp@, q as int, hi as int, 1);
            }
            let (r2, (tmpl, typ)) = demangle_template(inp, cfg, q + 1, hi, template_args, fixup)?;
            push_text(&mut names, &tmpl);
            trailing = typ;
            p = r2;
        } else {
            let (r2, ns) = custom_name_in(inp, q, hi, NameKind::CustomNameOnNamespace)?;
            push_text(&mut names, &ns);
            trailing = ns;
            p = r2;
        }
        k = k - 1;
    }
    Ok((p, (names, trailing)))
}

} // verus!
