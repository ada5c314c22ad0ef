//! Demangling of whole symbols: which kind of symbol it is, and how each
//! kind reads.
use vstd::prelude::*;

use crate::dem::{custom_name, custom_name_in, consumed, demangle_method_qualifier, lift, method_qualifier, no_progress, NameKind};
use crate::dem_arg::{aq_text, argument, demangle_argument, opt_aq_text, opt_aq_view, push_opt_aq, ArrayQualifiersV, DArg, DemangledArg};
use crate::dem_arg_list::{arg_list, arg_list_impl, av_join, av_new, demangle_argument_list, demangle_argument_list_impl, lift_text, opt_text_view, ArgVec};
use crate::dem_namespace::{demangle_namespaces, namespaces};
use crate::dem_template::{demangle_template, demangle_template_with_return_type, push_template_brackets, template, template_brackets, template_with_return_type};
use crate::demangle_config::DemangleConfig;
use crate::demangle_error::{not_non_ascii, DemErr, DemangleError};
use crate::input::{lemma_skip, starts_with, Input};
use crate::str_cutter::{c_cond_and_strip_prefix_and_char, c_split2, c_split2_r_starts_with, cond_strip_prefix_and_char, find_from, find_in, lemma_find_from_bound, split2, split2_r_starts_with};
use crate::text::{ends_with_char, join_sep, join_texts, lit, push_lit, push_text};

verus! {

/// A class or namespace at the start of `t`: a templated class after `t`,
/// nested names after `Q`, a length-prefixed name otherwise. Gives what is
/// left, the whole name, and its plain last name.
pub open spec fn class_name(t: Seq<char>, kind: NameKind, cfg: DemangleConfig, fixup: bool) -> Result<
    (Seq<char>, (Seq<char>, Seq<char>)),
    DemErr,
> {
    if t.len() > 0 && t[0] == 't' {
        template(t.skip(1), av_new(cfg, None), cfg, fixup)
    } else if t.len() > 0 && t[0] == 'Q' {
        namespaces(t.skip(1), av_new(cfg, None), cfg, fixup)
    } else {
        match custom_name(t, kind) {
            Err(e) => Err(e),
            Ok((r, n)) => Ok((r, (n, n))),
        }
    }
}

/// The argument list of a function, `void` when there is none.
pub open spec fn args_or_void(t: Seq<char>, namespace: Option<Seq<char>>, cfg: DemangleConfig) -> Result<Seq<char>, DemErr> {
    if t.len() == 0 {
        Ok("void"@)
    } else {
        arg_list(t, namespace, av_new(cfg, None), cfg, true)
    }
}

/// `method` of `class`, or `method` alone.
pub open spec fn qualified(class: Option<Seq<char>>, method: Seq<char>) -> Seq<char> {
    match class {
        Some(c) => c + "::"@ + method,
        None => method,
    }
}

/// A call of `method` of `class` whose argument list is `t`, followed by
/// `suffix`.
pub open spec fn method_call(t: Seq<char>, class: Option<Seq<char>>, method: Seq<char>, suffix: Seq<char>, cfg: DemangleConfig) -> Result<Seq<char>, DemErr> {
    match args_or_void(t, class, cfg) {
        Err(e) => Err(e),
        Ok(args) => Ok(qualified(class, method) + "("@ + args + ")"@ + suffix),
    }
}

/// A destructor, after its `_$_`: the class, and nothing after it.
pub open spec fn destructor(t: Seq<char>, cfg: DemangleConfig) -> Result<Seq<char>, DemErr> {
    match class_name(t, NameKind::ClassOnDestructor, cfg, true) {
        Err(e) => Err(e),
        Ok((r, (ns, typ))) => if r.len() == 0 {
            Ok(ns + "::~"@ + typ + "(void)"@)
        } else {
            Err(DemErr::TrailingDataOnDestructor(r))
        },
    }
}

/// A function, `name` and its argument list `args`.
pub open spec fn free_function(name: Seq<char>, args: Seq<char>, cfg: DemangleConfig) -> Result<Seq<char>, DemErr> {
    match arg_list(args, None, av_new(cfg, None), cfg, true) {
        Err(e) => Err(e),
        Ok(list) => Ok(name + "("@ + list + ")"@),
    }
}

/// A method `name`; `t` holds its `const` qualifier, its class and its
/// argument list.
pub open spec fn method(name: Seq<char>, t: Seq<char>, cfg: DemangleConfig) -> Result<Seq<char>, DemErr> {
    let (r, suffix) = method_qualifier(t);
    match class_name(r, NameKind::ClassOnMethod, cfg, true) {
        Err(e) => Err(e),
        Ok((r2, (cn, _typ))) => method_call(r2, Some(cn), name, suffix, cfg),
    }
}

/// A function `name` in nested namespaces, after its `__Q`.
pub open spec fn namespaced_function(name: Seq<char>, t: Seq<char>, cfg: DemangleConfig) -> Result<Seq<char>, DemErr> {
    match namespaces(t, av_new(cfg, None), cfg, true) {
        Err(e) => Err(e),
        Ok((r, (ns, _trailing))) => method_call(r, Some(ns), name, ""@, cfg),
    }
}

/// The class or namespace a templated function belongs to, when the
/// template arguments did not name one (`typ`): a length-prefixed name, a
/// templated class or nested names, if one follows.
pub open spec fn templated_owner(t: Seq<char>, typ: Option<Seq<char>>, cfg: DemangleConfig) -> Result<(Seq<char>, Option<Seq<char>>), DemErr> {
    match typ {
        Some(n) => Ok((t, Some(n))),
        None => if t.len() > 0 && '1' <= t[0] <= '9' {
            match custom_name(t, NameKind::NamespaceOnTemplatedFunction) {
                Err(e) => Err(e),
                Ok((r, n)) => Ok((r, Some(n))),
            }
        } else if t.len() > 0 && t[0] == 't' {
            match template(t.skip(1), av_new(cfg, None), cfg, false) {
                Err(e) => Err(e),
                Ok((r, (tmpl, _typ))) => Ok((r, Some(tmpl))),
            }
        } else if t.len() > 0 && t[0] == 'Q' {
            match namespaces(t.skip(1), av_new(cfg, None), cfg, false) {
                Err(e) => Err(e),
                Ok((r, (ns, _trailing))) => Ok((r, Some(ns))),
            }
        } else {
            Ok((t, None))
        },
    }
}

/// The text of a templated function `name` of `owner` that returns `ret`
/// with arrays `aq`; with `fix_array_in_return_position` the function is
/// written inside the array type it returns.
pub open spec fn templated_function_text(
    ret: Seq<char>,
    aq: Option<ArrayQualifiersV>,
    owner: Option<Seq<char>>,
    name: Seq<char>,
    template_args: Seq<char>,
    args: Seq<char>,
    suffix: Seq<char>,
    cfg: DemangleConfig,
) -> Seq<char> {
    let head = match aq {
        Some(a) => if cfg.fix_array_in_return_position {
            " ("@ + a.inner
        } else {
            aq_text(a) + " "@
        },
        None => " "@,
    };
    let owner_text = match owner {
        Some(o) => o + "::"@,
        None => seq![],
    };
    let tail = match aq {
        Some(a) => if cfg.fix_array_in_return_position {
            ")"@ + a.arrays
        } else {
            seq![]
        },
        None => seq![],
    };
    ret + head + owner_text + name + template_brackets(template_args) + "("@ + args + ")"@ + suffix + tail
}

/// A templated function `name`, after its `__H`: the template arguments,
/// the `const` qualifier, the owner, the argument list, `_` and the return
/// type.
pub open spec fn templated_function(name: Seq<char>, t: Seq<char>, cfg: DemangleConfig) -> Result<Seq<char>, DemErr> {
    match template_with_return_type(t, cfg, true) {
        Err(e) => Err(e),
        Ok((r, (targs, typ))) => {
            let (r, suffix) = method_qualifier(r);
            match templated_owner(r, typ, cfg) {
                Err(e) => Err(e),
                Ok((r, owner)) => match arg_list_impl(r, owner, targs, false, cfg, false) {
                    Err(e) => Err(e),
                    Ok((r, args)) => if r.len() > 0 && r[0] == '_' {
                        match argument(r.skip(1), av_new(cfg, owner), targs, cfg, false) {
                            Err(e) => Err(e),
                            Ok((r2, DArg::Plain(ret, aq))) => if r2.len() > 0 {
                                Err(DemErr::TrailingDataAfterReturnTypeOfMalformedTemplateWithReturnType(r2))
                            } else {
                                Ok(templated_function_text(ret, aq, owner, name, av_join(targs), av_join(args), suffix, cfg))
                            },
                            Ok(_) => Err(DemErr::MalformedTemplateWithReturnTypeMissingReturnType(r.skip(1))),
                        }
                    } else {
                        Err(DemErr::MalformedTemplateWithReturnTypeMissingReturnType(r))
                    },
                },
            }
        },
    }
}

/// Whether `s` ends with `p`.
pub open spec fn ends_with_text(s: Seq<char>, p: Seq<char>) -> bool {
    p.len() <= s.len() && s.skip(s.len() - p.len()) == p
}

/// Without the array fix-up of return types, the text of a templated
/// function ends with its argument list's `)` and then `suffix`.
proof fn lemma_templated_function_text_ends(
    ret: Seq<char>,
    aq: Option<ArrayQualifiersV>,
    owner: Option<Seq<char>>,
    name: Seq<char>,
    template_args: Seq<char>,
    args: Seq<char>,
    suffix: Seq<char>,
    cfg: DemangleConfig,
)
    requires
        !cfg.fix_array_in_return_position,
    ensures
        ends_with_text(templated_function_text(ret, aq, owner, name, template_args, args, suffix, cfg), ")"@ + suffix),
{
    let head = match aq {
        Some(a) => aq_text(a) + " "@,
        None => " "@,
    };
    let owner_text = match owner {
        Some(o) => o + "::"@,
        None => seq![],
    };
    let pre = ret + head + owner_text + name + template_brackets(template_args) + "("@ + args;
    let s = templated_function_text(ret, aq, owner, name, template_args, args, suffix, cfg);
    assert(s =~= pre + (")"@ + suffix));
    assert(s.skip(s.len() - (")"@ + suffix).len()) =~= ")"@ + suffix);
}

/// A templated function whose owner part starts with `C` is a const
/// method: its text ends with `) const`; otherwise it ends with the `)` of
/// its argument list. (This holds whenever return types that are arrays
/// are written the c++filt way, as `DemangleConfig::new()` does.) `r` is
/// what follows the template arguments and their `_`.
pub proof fn lemma_templated_const_method(name: Seq<char>, t: Seq<char>, cfg: DemangleConfig)
    requires
        !cfg.fix_array_in_return_position,
    ensures
        template_with_return_type(t, cfg, true) matches Ok((r, _)) ==> (templated_function(name, t, cfg) matches Ok(s) ==> (if r.len() > 0 && r[0] == 'C' {
            ends_with_text(s, ") const"@)
        } else {
            ends_with_char(s, ')')
        })),
{
    reveal_strlit(") const");
    reveal_strlit(" const");
    reveal_strlit(")");
    reveal_strlit("");
    assert(")"@ + " const"@ =~= ") const"@);
    match template_with_return_type(t, cfg, true) {
        Ok((r, (targs, typ))) => {
            let (r1, suffix) = method_qualifier(r);
            match templated_owner(r1, typ, cfg) {
                Ok((r2, owner)) => match arg_list_impl(r2, owner, targs, false, cfg, false) {
                    Ok((r3, args)) => if r3.len() > 0 && r3[0] == '_' {
                        match argument(r3.skip(1), av_new(cfg, owner), targs, cfg, false) {
                            Ok((r4, DArg::Plain(ret, aq))) => if r4.len() == 0 {
                                lemma_templated_function_text_ends(ret, aq, owner, name, av_join(targs), av_join(args), suffix, cfg);
                                let s = templated_function_text(ret, aq, owner, name, av_join(targs), av_join(args), suffix, cfg);
                                if !(r.len() > 0 && r[0] == 'C') {
                                    assert(")"@ + suffix =~= ")"@);
                                    assert(s.last() == (")"@ + suffix).last());
                                }
                            },
                            _ => {},
                        }
                    },
                    _ => {},
                },
                _ => {},
            }
        },
        _ => {},
    }
}

/// A method whose class part starts with `C` is a const method: its text
/// ends with `) const`; otherwise with the `)` of its argument list.
pub proof fn lemma_const_method(name: Seq<char>, t: Seq<char>, cfg: DemangleConfig)
    ensures
        method(name, t, cfg) matches Ok(s) ==> (if t.len() > 0 && t[0] == 'C' {
            ends_with_text(s, ") const"@)
        } else {
            ends_with_char(s, ')')
        }),
{
    reveal_strlit(") const");
    reveal_strlit(" const");
    reveal_strlit(")");
    reveal_strlit("");
    assert(")"@ + " const"@ =~= ") const"@);
    let (r, suffix) = method_qualifier(t);
    match class_name(r, NameKind::ClassOnMethod, cfg, true) {
        Ok((r2, (cn, _typ))) => match args_or_void(r2, Some(cn), cfg) {
            Ok(args) => {
                let pre = cn + "::"@ + name + "("@ + args;
                let s = qualified(Some(cn), name) + "("@ + args + ")"@ + suffix;
                assert(s =~= pre + (")"@ + suffix));
                assert(s.skip(s.len() - (")"@ + suffix).len()) =~= ")"@ + suffix);
                if !(t.len() > 0 && t[0] == 'C') {
                    assert(")"@ + suffix =~= ")"@);
                    assert(s.last() == (")"@ + suffix).last());
                }
            },
            _ => {},
        },
        _ => {},
    }
}

/// A destructor is written as its class, `::~`, the class's plain name and
/// `(void)`, and nothing may follow the class; a class written as a
/// length-prefixed name gives that name twice.
pub proof fn lemma_destructor_words(t: Seq<char>, cfg: DemangleConfig)
    ensures
        destructor(t, cfg) matches Ok(s) ==> (class_name(t, NameKind::ClassOnDestructor, cfg, true) matches Ok((r, (ns, typ)))
            && r.len() == 0 && s == ns + "::~"@ + typ + "(void)"@
            && (t.len() > 0 && '1' <= t[0] <= '9' ==> ns == typ)),
{
}

/// The type info function of a type, after its `__tf`.
pub open spec fn type_info_function(t: Seq<char>, cfg: DemangleConfig) -> Result<Seq<char>, DemErr> {
    match argument(t, av_new(cfg, None), av_new(cfg, None), cfg, true) {
        Err(e) => Err(e),
        Ok((r, DArg::Plain(typ, aq))) => if r.len() == 0 {
            Ok(typ + opt_aq_text(aq) + " type_info function"@)
        } else {
            Err(DemErr::TrailingDataOnTypeInfoFunction(r))
        },
        Ok(_) => Err(DemErr::InvalidTypeOnTypeInfoFunction(t)),
    }
}

/// The type info node of a type, after its `__ti`.
pub open spec fn type_info_node(t: Seq<char>, cfg: DemangleConfig) -> Result<Seq<char>, DemErr> {
    match argument(t, av_new(cfg, None), av_new(cfg, None), cfg, true) {
        Err(e) => Err(e),
        Ok((r, DArg::Plain(typ, aq))) => if r.len() == 0 {
            Ok(typ + opt_aq_text(aq) + " type_info node"@)
        } else {
            Err(DemErr::TrailingDataOnTypeInfoNode(r))
        },
        Ok(_) => Err(DemErr::InvalidTypeOnTypeInfoNode(t)),
    }
}

/// The name of the operator written `op`, when it is one of those
/// that can be overloaded.
pub open spec fn operator_name(op: Seq<char>) -> Option<Seq<char>> {
    if op == "nw"@ {
        Some("operator new"@)
    } else if op == "dl"@ {
        Some("operator delete"@)
    } else if op == "vn"@ {
        Some("operator new []"@)
    } else if op == "vd"@ {
        Some("operator delete []"@)
    } else if op == "as"@ {
        Some("operator="@)
    } else if op == "ne"@ {
        Some("operator!="@)
    } else if op == "eq"@ {
        Some("operator=="@)
    } else if op == "ge"@ {
        Some("operator>="@)
    } else if op == "gt"@ {
        Some("operator>"@)
    } else if op == "le"@ {
        Some("operator<="@)
    } else if op == "lt"@ {
        Some("operator<"@)
    } else if op == "pl"@ {
        Some("operator+"@)
    } else if op == "apl"@ {
        Some("operator+="@)
    } else if op == "mi"@ {
        Some("operator-"@)
    } else if op == "ami"@ {
        Some("operator-="@)
    } else if op == "ml"@ {
        Some("operator*"@)
    } else if op == "amu"@ {
        Some("operator*="@)
    } else if op == "aml"@ {
        Some("operator*="@)
    } else if op == "md"@ {
        Some("operator%"@)
    } else if op == "amd"@ {
        Some("operator%="@)
    } else if op == "dv"@ {
        Some("operator/"@)
    } else if op == "adv"@ {
        Some("operator/="@)
    } else {
        operator_name_rest(op)
    }
}

/// The name of the operator written `op`, among the second half of the
/// operators that can be overloaded.
pub open spec fn operator_name_rest(op: Seq<char>) -> Option<Seq<char>> {
    if op == "aa"@ {
        Some("operator&&"@)
    } else if op == "oo"@ {
        Some("operator||"@)
    } else if op == "nt"@ {
        Some("operator!"@)
    } else if op == "pp"@ {
        Some("operator++"@)
    } else if op == "mm"@ {
        Some("operator--"@)
    } else if op == "or"@ {
        Some("operator|"@)
    } else if op == "aor"@ {
        Some("operator|="@)
    } else if op == "er"@ {
        Some("operator^"@)
    } else if op == "aer"@ {
        Some("operator^="@)
    } else if op == "ad"@ {
        Some("operator&"@)
    } else if op == "aad"@ {
        Some("operator&="@)
    } else if op == "co"@ {
        Some("operator~"@)
    } else if op == "cl"@ {
        Some("operator()"@)
    } else if op == "ls"@ {
        Some("operator<<"@)
    } else if op == "als"@ {
        Some("operator<<="@)
    } else if op == "rs"@ {
        Some("operator>>"@)
    } else if op == "ars"@ {
        Some("operator>>="@)
    } else if op == "pt"@ {
        Some("operator->"@)
    } else if op == "rf"@ {
        Some("operator->"@)
    } else if op == "rm"@ {
        Some("operator->*"@)
    } else if op == "vc"@ {
        Some("operator[]"@)
    } else if op == "cm"@ {
        Some("operator, "@)
    } else {
        None
    }
}

/// Each operator code names its C++ operator: `pl` is `operator+`, `cl`
/// is `operator()`, `cm` is `operator, `, and so on for every operator that
/// can be overloaded.
pub proof fn lemma_operator_words()
    ensures
        operator_name(seq!['n', 'w']) == Some("operator new"@),
        operator_name(seq!['d', 'l']) == Some("operator delete"@),
        operator_name(seq!['v', 'n']) == Some("operator new []"@),
        operator_name(seq!['v', 'd']) == Some("operator delete []"@),
        operator_name(seq!['a', 's']) == Some("operator="@),
        operator_name(seq!['n', 'e']) == Some("operator!="@),
        operator_name(seq!['e', 'q']) == Some("operator=="@),
        operator_name(seq!['g', 'e']) == Some("operator>="@),
        operator_name(seq!['g', 't']) == Some("operator>"@),
        operator_name(seq!['l', 'e']) == Some("operator<="@),
        operator_name(seq!['l', 't']) == Some("operator<"@),
        operator_name(seq!['p', 'l']) == Some("operator+"@),
        operator_name(seq!['a', 'p', 'l']) == Some("operator+="@),
        operator_name(seq!['m', 'i']) == Some("operator-"@),
        operator_name(seq!['a', 'm', 'i']) == Some("operator-="@),
        operator_name(seq!['m', 'l']) == Some("operator*"@),
        operator_name(seq!['a', 'm', 'u']) == Some("operator*="@),
        operator_name(seq!['a', 'm', 'l']) == Some("operator*="@),
        operator_name(seq!['m', 'd']) == Some("operator%"@),
        operator_name(seq!['a', 'm', 'd']) == Some("operator%="@),
        operator_name(seq!['d', 'v']) == Some("operator/"@),
        operator_name(seq!['a', 'd', 'v']) == Some("operator/="@),
        operator_name(seq!['a', 'a']) == Some("operator&&"@),
        operator_name(seq!['o', 'o']) == Some("operator||"@),
        operator_name(seq!['n', 't']) == Some("operator!"@),
        operator_name(seq!['p', 'p']) == Some("operator++"@),
        operator_name(seq!['m', 'm']) == Some("operator--"@),
        operator_name(seq!['o', 'r']) == Some("operator|"@),
        operator_name(seq!['a', 'o', 'r']) == Some("operator|="@),
        operator_name(seq!['e', 'r']) == Some("operator^"@),
        operator_name(seq!['a', 'e', 'r']) == Some("operator^="@),
        operator_name(seq!['a', 'd']) == Some("operator&"@),
        operator_name(seq!['a', 'a', 'd']) == Some("operator&="@),
        operator_name(seq!['c', 'o']) == Some("operator~"@),
        operator_name(seq!['c', 'l']) == Some("operator()"@),
        operator_name(seq!['l', 's']) == Some("operator<<"@),
        operator_name(seq!['a', 'l', 's']) == Some("operator<<="@),
        operator_name(seq!['r', 's']) == Some("operator>>"@),
        operator_name(seq!['a', 'r', 's']) == Some("operator>>="@),
        operator_name(seq!['p', 't']) == Some("operator->"@),
        operator_name(seq!['r', 'f']) == Some("operator->"@),
        operator_name(seq!['r', 'm']) == Some("operator->*"@),
        operator_name(seq!['v', 'c']) == Some("operator[]"@),
        operator_name(seq!['c', 'm']) == Some("operator, "@),
{
    reveal_strlit("nw");
    reveal_strlit("dl");
    reveal_strlit("vn");
    reveal_strlit("vd");
    reveal_strlit("as");
    reveal_strlit("ne");
    reveal_strlit("eq");
    reveal_strlit("ge");
    reveal_strlit("gt");
    reveal_strlit("le");
    reveal_strlit("lt");
    reveal_strlit("pl");
    reveal_strlit("apl");
    reveal_strlit("mi");
    reveal_strlit("ami");
    reveal_strlit("ml");
    reveal_strlit("amu");
    reveal_strlit("aml");
    reveal_strlit("md");
    reveal_strlit("amd");
    reveal_strlit("dv");
    reveal_strlit("adv");
    reveal_strlit("aa");
    reveal_strlit("oo");
    reveal_strlit("nt");
    reveal_strlit("pp");
    reveal_strlit("mm");
    reveal_strlit("or");
    reveal_strlit("aor");
    reveal_strlit("er");
    reveal_strlit("aer");
    reveal_strlit("ad");
    reveal_strlit("aad");
    reveal_strlit("co");
    reveal_strlit("cl");
    reveal_strlit("ls");
    reveal_strlit("als");
    reveal_strlit("rs");
    reveal_strlit("ars");
    reveal_strlit("pt");
    reveal_strlit("rf");
    reveal_strlit("rm");
    reveal_strlit("vc");
    reveal_strlit("cm");
    assert(seq!['n', 'w'] =~= "nw"@);
    assert(seq!['d', 'l'] =~= "dl"@);
    assert(seq!['v', 'n'] =~= "vn"@);
    assert(seq!['v', 'd'] =~= "vd"@);
    assert(seq!['a', 's'] =~= "as"@);
    assert(seq!['n', 'e'] =~= "ne"@);
    assert(seq!['e', 'q'] =~= "eq"@);
    assert(seq!['g', 'e'] =~= "ge"@);
    assert(seq!['g', 't'] =~= "gt"@);
    assert(seq!['l', 'e'] =~= "le"@);
    assert(seq!['l', 't'] =~= "lt"@);
    assert(seq!['p', 'l'] =~= "pl"@);
    assert(seq!['a', 'p', 'l'] =~= "apl"@);
    assert(seq!['m', 'i'] =~= "mi"@);
    assert(seq!['a', 'm', 'i'] =~= "ami"@);
    assert(seq!['m', 'l'] =~= "ml"@);
    assert(seq!['a', 'm', 'u'] =~= "amu"@);
    assert(seq!['a', 'm', 'l'] =~= "aml"@);
    assert(seq!['m', 'd'] =~= "md"@);
    assert(seq!['a', 'm', 'd'] =~= "amd"@);
    assert(seq!['d', 'v'] =~= "dv"@);
    assert(seq!['a', 'd', 'v'] =~= "adv"@);
    assert(seq!['a', 'a'] =~= "aa"@);
    assert(seq!['o', 'o'] =~= "oo"@);
    assert(seq!['n', 't'] =~= "nt"@);
    assert(seq!['p', 'p'] =~= "pp"@);
    assert(seq!['m', 'm'] =~= "mm"@);
    assert(seq!['o', 'r'] =~= "or"@);
    assert(seq!['a', 'o', 'r'] =~= "aor"@);
    assert(seq!['e', 'r'] =~= "er"@);
    assert(seq!['a', 'e', 'r'] =~= "aer"@);
    assert(seq!['a', 'd'] =~= "ad"@);
    assert(seq!['a', 'a', 'd'] =~= "aad"@);
    assert(seq!['c', 'o'] =~= "co"@);
    assert(seq!['c', 'l'] =~= "cl"@);
    assert(seq!['l', 's'] =~= "ls"@);
    assert(seq!['a', 'l', 's'] =~= "als"@);
    assert(seq!['r', 's'] =~= "rs"@);
    assert(seq!['a', 'r', 's'] =~= "ars"@);
    assert(seq!['p', 't'] =~= "pt"@);
    assert(seq!['r', 'f'] =~= "rf"@);
    assert(seq!['r', 'm'] =~= "rm"@);
    assert(seq!['v', 'c'] =~= "vc"@);
    assert(seq!['c', 'm'] =~= "cm"@);
}

/// The name of the method written `op`: a known operator, or a cast
/// operator after `op`; `None` when `op` is neither.
pub open spec fn operator_method_name(op: Seq<char>, cfg: DemangleConfig) -> Result<Option<Seq<char>>, DemErr> {
    match operator_name(op) {
        Some(n) => Ok(Some(n)),
        None => if starts_with(op, "op"@) {
            match argument(op.skip(2), av_new(cfg, None), av_new(cfg, None), cfg, true) {
                Err(e) => Err(e),
                Ok((r, DArg::Plain(typ, aq))) => if r.len() > 0 {
                    Err(DemErr::MalformedCastOperatorOverload(r))
                } else {
                    Ok(Some("operator "@ + typ + opt_aq_text(aq)))
                },
                Ok(_) => Err(DemErr::UnrecognizedSpecialMethod(op)),
            }
        } else {
            Ok(None)
        },
    }
}

/// A symbol that starts with `__` but names no operator (`op` is what
/// stood where the operator would): read as a function, a method or a
/// templated function. `s` is the symbol after its `__`.
pub open spec fn special_fallback(op: Seq<char>, s: Seq<char>, full: Seq<char>, cfg: DemangleConfig) -> Result<Seq<char>, DemErr> {
    match split2(full, "__F"@) {
        Some((f, a)) => free_function(f, a, cfg),
        None => match split2_r_starts_with(s) {
            Some((m, ca, _c)) => method(full.take(m.len() + 2int), ca, cfg),
            None => match split2(full, "__H"@) {
                Some((f, r)) => templated_function(f, r, cfg),
                None => Err(DemErr::UnrecognizedSpecialMethod(op)),
            },
        },
    }
}

/// An operator method, `op` then `__` then `rest`: `F` and the argument
/// list of a free operator, or the `const` qualifier, the class and the
/// argument list.
pub open spec fn operator(op: Seq<char>, rest: Seq<char>, s: Seq<char>, full: Seq<char>, cfg: DemangleConfig) -> Result<Seq<char>, DemErr> {
    match operator_method_name(op, cfg) {
        Err(e) => Err(e),
        Ok(None) => special_fallback(op, s, full, cfg),
        Ok(Some(name)) => if rest.len() > 0 && rest[0] == 'F' {
            method_call(rest.skip(1), None, name, ""@, cfg)
        } else {
            let (r, suffix) = method_qualifier(rest);
            match class_name(r, NameKind::ClassOnOperator, cfg, true) {
                Err(e) => Err(e),
                Ok((r2, (cn, _typ))) => method_call(r2, Some(cn), name, suffix, cfg),
            }
        },
    }
}

/// A symbol after its leading `__` (`full` is the whole symbol): a
/// constructor, a type info function or node, or an operator.
pub open spec fn special(s: Seq<char>, full: Seq<char>, cfg: DemangleConfig) -> Result<Seq<char>, DemErr> {
    if s.len() == 0 {
        Err(DemErr::RanOutWhileDemanglingSpecial)
    } else if '1' <= s[0] <= '9' {
        match custom_name(s, NameKind::ClassOnConstructor) {
            Err(e) => Err(e),
            Ok((r, cn)) => method_call(r, Some(cn), cn, ""@, cfg),
        }
    } else if starts_with(s, "tf"@) {
        type_info_function(s.skip(2), cfg)
    } else if starts_with(s, "ti"@) {
        type_info_node(s.skip(2), cfg)
    } else if s[0] == 't' || s[0] == 'Q' {
        match class_name(s, NameKind::ClassOnConstructor, cfg, true) {
            Err(e) => Err(e),
            Ok((r, (cn, typ))) => method_call(r, Some(cn), typ, ""@, cfg),
        }
    } else {
        match find_from(s, "__"@, 0) {
            None => Err(DemErr::InvalidSpecialMethod(s)),
            Some(i) => operator(s.take(i), s.skip(i + 2), s, full, cfg),
        }
    }
}

/// The names of a virtual table, each after `$`, added to `acc`.
pub open spec fn vtable_names(t: Seq<char>, acc: Seq<Seq<char>>, cfg: DemangleConfig) -> Result<Seq<Seq<char>>, DemErr>
    decreases t.len(),
{
    if t.len() == 0 {
        Ok(acc)
    } else if t[0] != '$' {
        Err(DemErr::VTableMissingDollarSeparator(t))
    } else {
        match class_name(t.skip(1), NameKind::ClassOnVirtualTable, cfg, true) {
            Err(e) => Err(e),
            Ok((r, (n, _typ))) => if r.len() >= t.len() {
                Err(no_progress())
            } else {
                vtable_names(r, acc.push(n), cfg)
            },
        }
    }
}

/// A virtual table, after its `_vt`.
pub open spec fn virtual_table(t: Seq<char>, cfg: DemangleConfig) -> Result<Seq<char>, DemErr> {
    match vtable_names(t, seq![], cfg) {
        Err(e) => Err(e),
        Ok(names) => Ok(join_sep(names, "::"@) + " virtual table"@),
    }
}

/// A global variable `name` of a class or namespace written after `_`
/// in `s`.
pub open spec fn namespaced_global(s: Seq<char>, name: Seq<char>, cfg: DemangleConfig) -> Result<Seq<char>, DemErr> {
    if !(s.len() > 0 && s[0] == '_') {
        Err(DemErr::InvalidNamespacedGlobal(s, name))
    } else {
        match class_name(s.skip(1), NameKind::NamespaceOnNamespacedGlobal, cfg, true) {
            Err(e) => Err(e),
            Ok((r, (space, _typ))) => if r.len() > 0 {
                Err(DemErr::TrailingDataOnNamespacedGlobal(r))
            } else {
                Ok(space + "::"@ + name)
            },
        }
    }
}

/// The text of a global constructor, destructor or frame (`which`) keyed
/// to the symbol `r`, whose demangling is `d`: the keyed symbol is written
/// as it is when it does not demangle. With
/// `preserve_namespaced_global_constructor_bug`, a constructor keyed to a
/// namespaced function is that function's demangling alone.
pub open spec fn keyed_text(r: Seq<char>, which: Seq<char>, is_constructor: bool, d: Result<Seq<char>, DemErr>, cfg: DemangleConfig) -> Result<Seq<char>, DemErr> {
    if cfg.preserve_namespaced_global_constructor_bug && is_constructor && starts_with(r, "__Q"@) {
        d
    } else {
        Ok("global "@ + which + " keyed to "@ + match d {
            Ok(x) => x,
            Err(_) => r,
        })
    }
}

/// A global constructor (`I$`), destructor (`D$`) or frame (`F$`) keyed to
/// a symbol, after the `_GLOBAL_$` of `full`. Without
/// `demangle_global_keyed_frames`, a symbol with `F$` is demangled as any
/// other kind.
pub open spec fn global_sym_keyed(s: Seq<char>, full: Seq<char>, cfg: DemangleConfig) -> Result<Seq<char>, DemErr>
    decreases full.len(), 1nat,
{
    if s.len() >= full.len() {
        Err(no_progress())
    } else {
        proof {
            reveal_strlit("I$");
            reveal_strlit("D$");
            reveal_strlit("F$");
        }
        if starts_with(s, "I$"@) {
            keyed_text(s.skip(2), "constructors"@, true, demangle_symbol(s.skip(2), cfg, false), cfg)
        } else if starts_with(s, "D$"@) {
            keyed_text(s.skip(2), "destructors"@, false, demangle_symbol(s.skip(2), cfg, false), cfg)
        } else if starts_with(s, "F$"@) {
            if cfg.demangle_global_keyed_frames {
                keyed_text(s.skip(2), "frames"@, false, demangle_symbol(s.skip(2), cfg, false), cfg)
            } else {
                demangle_symbol(full, cfg, false)
            }
        } else {
            Err(DemErr::InvalidGlobalSymKeyed(s))
        }
    }
}

/// The demangling of the ASCII symbol `t`; `allow_global_sym_keyed` lets
/// it be a global constructor, destructor or frame keyed to a symbol.
pub open spec fn demangle_symbol(t: Seq<char>, cfg: DemangleConfig, allow_global_sym_keyed: bool) -> Result<Seq<char>, DemErr>
    decreases t.len(), (if allow_global_sym_keyed { 2nat } else { 0nat }),
{
    if starts_with(t, "_$_"@) {
        destructor(t.skip(3), cfg)
    } else if starts_with(t, "__"@) {
        special(t.skip(2), t, cfg)
    } else if let Some(s) = cond_strip_prefix_and_char(t, allow_global_sym_keyed, "_GLOBAL_"@, '$') {
        global_sym_keyed(s, t, cfg)
    } else if let Some((f, a)) = split2(t, "__F"@) {
        free_function(f, a, cfg)
    } else if let Some((m, ca, _c)) = split2_r_starts_with(t) {
        method(m, ca, cfg)
    } else if let Some((f, r)) = split2(t, "__H"@) {
        templated_function(f, r, cfg)
    } else if let Some((f, r)) = split2(t, "__Q"@) {
        namespaced_function(f, r, cfg)
    } else if starts_with(t, "_vt"@) {
        virtual_table(t.skip(3), cfg)
    } else if let Some((s, name)) = split2(t, "$"@) {
        namespaced_global(s, name, cfg)
    } else {
        Err(DemErr::NotMangled)
    }
}

/// What demangling `sym` gives: its text, or why it failed.
pub open spec fn demangled(sym: Seq<char>, cfg: DemangleConfig) -> Result<Seq<char>, DemErr> {
    if !vstd::utf8::is_ascii_chars(sym) {
        Err(DemErr::NonAscii)
    } else {
        demangle_symbol(sym, cfg, true)
    }
}

/// A copy of an optional text.
fn clone_opt_text(o: &Option<Vec<char>>) -> (r: Option<Vec<char>>)
    ensures
        opt_text_view(r) == opt_text_view(*o),
{
    match o {
        Some(t) => Some(t.clone()),
        None => None,
    }
}

/// Reads a class or namespace at the start of `lo..hi`: its whole name and
/// its plain last name.
fn demangle_class<'s>(inp: &Input<'s>, cfg: &DemangleConfig, lo: usize, hi: usize, kind: NameKind, fixup: bool) -> (res: Result<
    (usize, (Vec<char>, Vec<char>)),
    DemangleError<'s>,
>)
    requires
        inp.wf(),
        lo <= hi <= inp@.len(),
    ensures
        not_non_ascii(res),
        lift(inp@, hi as int, res) == class_name(inp@.subrange(lo as int, hi as int), kind, *cfg, fixup),
        consumed(res, lo as int, hi as int),
{
    if lo < hi && inp.at(lo) == 't' {
        proof {
            lemma_skip(inp@, lo as int, hi as int, 1);
        }
        let empty = ArgVec::new(cfg, None);
        demangle_template(inp, cfg, lo + 1, hi, &empty, fixup)
    } else if lo < hi && inp.at(lo) == 'Q' {
        proof {
            lemma_skip(inp@, lo as int, hi as int, 1);
        }
        let empty = ArgVec::new(cfg, None);
        demangle_namespaces(inp, cfg, lo + 1, hi, &empty, fixup)
    } else {
        let (r, n) = custom_name_in(inp, lo, hi, kind)?;
        let n2 = n.clone();
        Ok((r, (n, n2)))
    }
}

/// Reads the argument list that makes up all of `lo..hi`; `void` when the
/// window is empty.
fn demangle_args_or_void<'s>(inp: &Input<'s>, cfg: &DemangleConfig, lo: usize, hi: usize, namespace: Option<Vec<char>>) -> (res: Result<Vec<char>, DemangleError<'s>>)
    requires
        inp.wf(),
        lo <= hi <= inp@.len(),
    ensures
        not_non_ascii(res),
        lift_text(res) == args_or_void(inp@.subrange(lo as int, hi as int), opt_text_view(namespace), *cfg),
{
    if lo == hi {
        Ok(lit("void"))
    } else {
        let empty = ArgVec::new(cfg, None);
        demangle_argument_list(inp, cfg, lo, hi, namespace, &empty, true)
    }
}

/// Writes a call of `method` of `class` whose argument list is `lo..hi`,
/// followed by `suffix`.
fn demangle_method_call<'s>(inp: &Input<'s>, cfg: &DemangleConfig, lo: usize, hi: usize, class: Option<Vec<char>>, method: Vec<char>, suffix: &str) -> (res: Result<Vec<char>, DemangleError<'s>>)
    requires
        inp.wf(),
        lo <= hi <= inp@.len(),
    ensures
        not_non_ascii(res),
        lift_text(res) == method_call(inp@.subrange(lo as int, hi as int), opt_text_view(class), method@, suffix@, *cfg),
{
    let namespace = clone_opt_text(&class);
    let args = demangle_args_or_void(inp, cfg, lo, hi, namespace)?;
    let mut out = match class {
        Some(c) => {
            let mut o = c;
            push_lit(&mut o, "::");
            push_text(&mut o, &method);
            o
        },
        None => method,
    };
    push_lit(&mut out, "(");
    push_text(&mut out, &args);
    push_lit(&mut out, ")");
    push_lit(&mut out, suffix);
    Ok(out)
}

/// Demangles a destructor, after its `_$_`, that makes up `lo..hi`.
pub fn demangle_destructor<'s>(inp: &Input<'s>, cfg: &DemangleConfig, lo: usize, hi: usize) -> (res: Result<Vec<char>, DemangleError<'s>>)
    requires
        inp.wf(),
        lo <= hi <= inp@.len(),
    ensures
        not_non_ascii(res),
        lift_text(res) == destructor(inp@.subrange(lo as int, hi as int), *cfg),
{
    let (r, (namespace, typ)) = demangle_class(inp, cfg, lo, hi, NameKind::ClassOnDestructor, true)?;
    if r == hi {
        let mut out = namespace;
        push_lit(&mut out, "::~");
        push_text(&mut out, &typ);
        push_lit(&mut out, "(void)");
        Ok(out)
    } else {
        Err(DemangleError::TrailingDataOnDestructor(inp.slice(r, hi)))
    }
}

/// Demangles a function named `f_lo..f_hi` whose argument list is
/// `lo..hi`.
pub fn demangle_free_function<'s>(inp: &Input<'s>, cfg: &DemangleConfig, f_lo: usize, f_hi: usize, lo: usize, hi: usize) -> (res: Result<Vec<char>, DemangleError<'s>>)
    requires
        inp.wf(),
        f_lo <= f_hi <= inp@.len(),
        lo <= hi <= inp@.len(),
    ensures
        not_non_ascii(res),
        lift_text(res) == free_function(inp@.subrange(f_lo as int, f_hi as int), inp@.subrange(lo as int, hi as int), *cfg),
{
    let empty = ArgVec::new(cfg, None);
    let argument_list = demangle_argument_list(inp, cfg, lo, hi, None, &empty, true)?;
    let mut out = inp.text(f_lo, f_hi);
    push_lit(&mut out, "(");
    push_text(&mut out, &argument_list);
    push_lit(&mut out, ")");
    Ok(out)
}

/// Demangles a method named `m_lo..m_hi`, whose `const` qualifier, class
/// and argument list are `lo..hi`.
pub fn demangle_method<'s>(inp: &Input<'s>, cfg: &DemangleConfig, m_lo: usize, m_hi: usize, lo: usize, hi: usize) -> (res: Result<Vec<char>, DemangleError<'s>>)
    requires
        inp.wf(),
        m_lo <= m_hi <= inp@.len(),
        lo <= hi <= inp@.len(),
    ensures
        not_non_ascii(res),
        lift_text(res) == method(inp@.subrange(m_lo as int, m_hi as int), inp@.subrange(lo as int, hi as int), *cfg),
{
    let (r, suffix) = demangle_method_qualifier(inp, lo, hi);
    let (r2, (namespace, _typ)) = demangle_class(inp, cfg, r, hi, NameKind::ClassOnMethod, true)?;
    let name = inp.text(m_lo, m_hi);
    demangle_method_call(inp, cfg, r2, hi, Some(namespace), name, suffix)
}

/// Demangles a function named `f_lo..f_hi` in the nested namespaces, and
/// with the argument list, of `lo..hi`.
pub fn demangle_namespaced_function<'s>(inp: &Input<'s>, cfg: &DemangleConfig, f_lo: usize, f_hi: usize, lo: usize, hi: usize) -> (res: Result<Vec<char>, DemangleError<'s>>)
    requires
        inp.wf(),
        f_lo <= f_hi <= inp@.len(),
        lo <= hi <= inp@.len(),
    ensures
        not_non_ascii(res),
        lift_text(res) == namespaced_function(inp@.subrange(f_lo as int, f_hi as int), inp@.subrange(lo as int, hi as int), *cfg),
{
    let empty = ArgVec::new(cfg, None);
    let (r, (namespaces, _trailing)) = demangle_namespaces(inp, cfg, lo, hi, &empty, true)?;
    let name = inp.text(f_lo, f_hi);
    demangle_method_call(inp, cfg, r, hi, Some(namespaces), name, "")
}

/// Demangles the type info function of the type that makes up `lo..hi`.
pub fn demangle_type_info_function<'s>(inp: &Input<'s>, cfg: &DemangleConfig, lo: usize, hi: usize) -> (res: Result<Vec<char>, DemangleError<'s>>)
    requires
        inp.wf(),
        lo <= hi <= inp@.len(),
    ensures
        not_non_ascii(res),
        lift_text(res) == type_info_function(inp@.subrange(lo as int, hi as int), *cfg),
{
    let parsed = ArgVec::new(cfg, None);
    let template_args = ArgVec::new(cfg, None);
    let (r, arg) = demangle_argument(inp, cfg, lo, hi, &parsed, &template_args, true)?;
    match arg {
        DemangledArg::Plain(typ, array_qualifiers) => {
            if r == hi {
                let mut out = typ;
                push_opt_aq(&mut out, &array_qualifiers);
                push_lit(&mut out, " type_info function");
                Ok(out)
            } else {
                Err(DemangleError::TrailingDataOnTypeInfoFunction(inp.slice(r, hi)))
            }
        },
        _ => Err(DemangleError::InvalidTypeOnTypeInfoFunction(inp.slice(lo, hi))),
    }
}

/// Demangles the type info node of the type that makes up `lo..hi`.
pub fn demangle_type_info_node<'s>(inp: &Input<'s>, cfg: &DemangleConfig, lo: usize, hi: usize) -> (res: Result<Vec<char>, DemangleError<'s>>)
    requires
        inp.wf(),
        lo <= hi <= inp@.len(),
    ensures
        not_non_ascii(res),
        lift_text(res) == type_info_node(inp@.subrange(lo as int, hi as int), *cfg),
{
    let parsed = ArgVec::new(cfg, None);
    let template_args = ArgVec::new(cfg, None);
    let (r, arg) = demangle_argument(inp, cfg, lo, hi, &parsed, &template_args, true)?;
    match arg {
        DemangledArg::Plain(typ, array_qualifiers) => {
            if r == hi {
                let mut out = typ;
                push_opt_aq(&mut out, &array_qualifiers);
                push_lit(&mut out, " type_info node");
                Ok(out)
            } else {
                Err(DemangleError::TrailingDataOnTypeInfoNode(inp.slice(r, hi)))
            }
        },
        _ => Err(DemangleError::InvalidTypeOnTypeInfoNode(inp.slice(lo, hi))),
    }
}

/// Demangles a global variable named `n_lo..n_hi` whose class or namespace
/// is written, after `_`, in `lo..hi`.
pub fn demangle_namespaced_global<'s>(inp: &Input<'s>, cfg: &DemangleConfig, lo: usize, hi: usize, n_lo: usize, n_hi: usize) -> (res: Result<Vec<char>, DemangleError<'s>>)
    requires
        inp.wf(),
        lo <= hi <= inp@.len(),
        n_lo <= n_hi <= inp@.len(),
    ensures
        not_non_ascii(res),
        lift_text(res) == namespaced_global(inp@.subrange(lo as int, hi as int), inp@.subrange(n_lo as int, n_hi as int), *cfg),
{
    if !(lo < hi && inp.at(lo) == '_') {
        return Err(DemangleError::InvalidNamespacedGlobal(inp.slice(lo, hi), inp.slice(n_lo, n_hi)));
    }
    proof {
        lemma_skip(inp@, lo as int, hi as int, 1);
    }
    let (r, (space, _typ)) = demangle_class(inp, cfg, lo + 1, hi, NameKind::NamespaceOnNamespacedGlobal, true)?;
    if r < hi {
        return Err(DemangleError::TrailingDataOnNamespacedGlobal(inp.slice(r, hi)));
    }
    let mut out = space;
    push_lit(&mut out, "::");
    let name = inp.text(n_lo, n_hi);
    push_text(&mut out, &name);
    Ok(out)
}

/// Demangles a virtual table, after its `_vt`, that makes up `lo..hi`.
pub fn demangle_virtual_table<'s>(inp: &Input<'s>, cfg: &DemangleConfig, lo: usize, hi: usize) -> (res: Result<Vec<char>, DemangleError<'s>>)
    requires
        inp.wf(),
        lo <= hi <= inp@.len(),
    ensures
        not_non_ascii(res),
        lift_text(res) == virtual_table(inp@.subrange(lo as int, hi as int), *cfg),
{
    let ghost whole = vtable_names(inp@.subrange(lo as int, hi as int), seq![], *cfg);
    let mut stuff: Vec<Vec<char>> = Vec::new();
    let mut p = lo;
    assert(stuff@.map_values(|v: Vec<char>| v@) =~= seq![]);
    while p < hi
        invariant
            inp.wf(),
            lo <= p <= hi <= inp@.len(),
            whole == vtable_names(inp@.subrange(lo as int, hi as int), seq![], *cfg),
            vtable_names(inp@.subrange(p as int, hi as int), stuff@.map_values(|v: Vec<char>| v@), *cfg) == whole,
        decreases hi - p,
    {
        if inp.at(p) != '$' {
            return Err(DemangleError::VTableMissingDollarSeparator(inp.slice(p, hi)));
        }
        proof {
            lemma_skip(inp@, p as int, hi as int, 1);
        }
        let (r, (name, _typ)) = demangle_class(inp, cfg, p + 1, hi, NameKind::ClassOnVirtualTable, true)?;
        let ghost before = stuff@.map_values(|v: Vec<char>| v@);
        stuff.push(name);
        assert(stuff@.map_values(|v: Vec<char>| v@) =~= before.push(name@));
        p = r;
    }
    assert(inp@.subrange(p as int, hi as int).len() == 0);
    let mut out = join_texts(&stuff, "::");
    push_lit(&mut out, " virtual table");
    Ok(out)
}

/// Whether the window `lo..hi` is exactly `l`.
fn window_is(inp: &Input, lo: usize, hi: usize, l: &str) -> (b: bool)
    requires
        inp.wf(),
        lo <= hi <= inp@.len(),
    ensures
        b == (inp@.subrange(lo as int, hi as int) == l@),
{
    let n = l.unicode_len();
    if n != hi - lo {
        return false;
    }
    let b = inp.starts_with(lo, hi, l);
    assert(inp@.subrange(lo as int, hi as int).take(n as int) =~= inp@.subrange(lo as int, hi as int));
    b
}

/// The name of the operator written `lo..hi`, when it is one of those
/// that can be overloaded.
fn demangle_operator_name(inp: &Input, lo: usize, hi: usize) -> (r: Option<Vec<char>>)
    requires
        inp.wf(),
        lo <= hi <= inp@.len(),
    ensures
        opt_text_view(r) == operator_name(inp@.subrange(lo as int, hi as int)),
{
    if window_is(inp, lo, hi, "nw") {
        Some(lit("operator new"))
    } else if window_is(inp, lo, hi, "dl") {
        Some(lit("operator delete"))
    } else if window_is(inp, lo, hi, "vn") {
        Some(lit("operator new []"))
    } else if window_is(inp, lo, hi, "vd") {
        Some(lit("operator delete []"))
    } else if window_is(inp, lo, hi, "as") {
        Some(lit("operator="))
    } else if window_is(inp, lo, hi, "ne") {
        Some(lit("operator!="))
    } else if window_is(inp, lo, hi, "eq") {
        Some(lit("operator=="))
    } else if window_is(inp, lo, hi, "ge") {
        Some(lit("operator>="))
    } else if window_is(inp, lo, hi, "gt") {
        Some(lit("operator>"))
    } else if window_is(inp, lo, hi, "le") {
        Some(lit("operator<="))
    } else if window_is(inp, lo, hi, "lt") {
        Some(lit("operator<"))
    } else if window_is(inp, lo, hi, "pl") {
        Some(lit("operator+"))
    } else if window_is(inp, lo, hi, "apl") {
        Some(lit("operator+="))
    } else if window_is(inp, lo, hi, "mi") {
        Some(lit("operator-"))
    } else if window_is(inp, lo, hi, "ami") {
        Some(lit("operator-="))
    } else if window_is(inp, lo, hi, "ml") {
        Some(lit("operator*"))
    } else if window_is(inp, lo, hi, "amu") {
        Some(lit("operator*="))
    } else if window_is(inp, lo, hi, "aml") {
        Some(lit("operator*="))
    } else if window_is(inp, lo, hi, "md") {
        Some(lit("operator%"))
    } else if window_is(inp, lo, hi, "amd") {
        Some(lit("operator%="))
    } else if window_is(inp, lo, hi, "dv") {
        Some(lit("operator/"))
    } else if window_is(inp, lo, hi, "adv") {
        Some(lit("operator/="))
    } else {
        demangle_operator_name_rest(inp, lo, hi)
    }
}

/// The name of the operator written `lo..hi`, among the second half of
/// the operators that can be overloaded.
fn demangle_operator_name_rest(inp: &Input, lo: usize, hi: usize) -> (r: Option<Vec<char>>)
    requires
        inp.wf(),
        lo <= hi <= inp@.len(),
    ensures
        opt_text_view(r) == operator_name_rest(inp@.subrange(lo as int, hi as int)),
{
    if window_is(inp, lo, hi, "aa") {
        Some(lit("operator&&"))
    } else if window_is(inp, lo, hi, "oo") {
        Some(lit("operator||"))
    } else if window_is(inp, lo, hi, "nt") {
        Some(lit("operator!"))
    } else if window_is(inp, lo, hi, "pp") {
        Some(lit("operator++"))
    } else if window_is(inp, lo, hi, "mm") {
        Some(lit("operator--"))
    } else if window_is(inp, lo, hi, "or") {
        Some(lit("operator|"))
    } else if window_is(inp, lo, hi, "aor") {
        Some(lit("operator|="))
    } else if window_is(inp, lo, hi, "er") {
        Some(lit("operator^"))
    } else if window_is(inp, lo, hi, "aer") {
        Some(lit("operator^="))
    } else if window_is(inp, lo, hi, "ad") {
        Some(lit("operator&"))
    } else if window_is(inp, lo, hi, "aad") {
        Some(lit("operator&="))
    } else if window_is(inp, lo, hi, "co") {
        Some(lit("operator~"))
    } else if window_is(inp, lo, hi, "cl") {
        Some(lit("operator()"))
    } else if window_is(inp, lo, hi, "ls") {
        Some(lit("operator<<"))
    } else if window_is(inp, lo, hi, "als") {
        Some(lit("operator<<="))
    } else if window_is(inp, lo, hi, "rs") {
        Some(lit("operator>>"))
    } else if window_is(inp, lo, hi, "ars") {
        Some(lit("operator>>="))
    } else if window_is(inp, lo, hi, "pt") {
        Some(lit("operator->"))
    } else if window_is(inp, lo, hi, "rf") {
        Some(lit("operator->"))
    } else if window_is(inp, lo, hi, "rm") {
        Some(lit("operator->*"))
    } else if window_is(inp, lo, hi, "vc") {
        Some(lit("operator[]"))
    } else if window_is(inp, lo, hi, "cm") {
        Some(lit("operator, "))
    } else {
        None
    }
}

/// A result holding an optional text, as its view.
pub open spec fn lift_opt_text(r: Result<Option<Vec<char>>, DemangleError>) -> Result<Option<Seq<char>>, DemErr> {
    match r {
        Ok(o) => Ok(opt_text_view(o)),
        Err(e) => Err(e@),
    }
}

/// The name of the method written `lo..hi`: a known operator or a cast
/// operator; `None` when it is neither.
fn demangle_operator_method_name<'s>(inp: &Input<'s>, cfg: &DemangleConfig, lo: usize, hi: usize) -> (res: Result<Option<Vec<char>>, DemangleError<'s>>)
    requires
        inp.wf(),
        lo <= hi <= inp@.len(),
    ensures
        not_non_ascii(res),
        lift_opt_text(res) == operator_method_name(inp@.subrange(lo as int, hi as int), *cfg),
{
    if let Some(name) = demangle_operator_name(inp, lo, hi) {
        return Ok(Some(name));
    }
    if !inp.starts_with(lo, hi, "op") {
        return Ok(None);
    }
    proof {
        reveal_strlit("op");
        lemma_skip(inp@, lo as int, hi as int, 2);
    }
    let parsed = ArgVec::new(cfg, None);
    let template_args = ArgVec::new(cfg, None);
    let (r, arg) = demangle_argument(inp, cfg, lo + 2, hi, &parsed, &template_args, true)?;
    match arg {
        DemangledArg::Plain(typ, array_qualifiers) => {
            if r < hi {
                Err(DemangleError::MalformedCastOperatorOverload(inp.slice(r, hi)))
            } else {
                let mut out = lit("operator ");
                push_text(&mut out, &typ);
                push_opt_aq(&mut out, &array_qualifiers);
                Ok(Some(out))
            }
        },
        _ => Err(DemangleError::UnrecognizedSpecialMethod(inp.slice(lo, hi))),
    }
}

/// Demangles a symbol `full_lo..hi` that starts with `__` but names no
/// operator (`op_lo..op_hi` is what stood where the operator would) as a
/// function, a method or a templated function.
fn demangle_special_fallback<'s>(inp: &Input<'s>, cfg: &DemangleConfig, op_lo: usize, op_hi: usize, lo: usize, hi: usize, full_lo: usize) -> (res: Result<Vec<char>, DemangleError<'s>>)
    requires
        inp.wf(),
        op_lo <= op_hi <= inp@.len(),
        full_lo + 2 == lo,
        lo <= hi <= inp@.len(),
    ensures
        not_non_ascii(res),
        lift_text(res) == special_fallback(inp@.subrange(op_lo as int, op_hi as int), inp@.subrange(lo as int, hi as int), inp@.subrange(full_lo as int, hi as int), *cfg),
{
    if let Some((a, b)) = c_split2(inp, full_lo, hi, "__F") {
        return demangle_free_function(inp, cfg, full_lo, a, b, hi);
    }
    if let Some((a, b, _c)) = c_split2_r_starts_with(inp, lo, hi) {
        assert(inp@.subrange(full_lo as int, hi as int).take(a - lo + 2) =~= inp@.subrange(full_lo as int, a as int));
        return demangle_method(inp, cfg, full_lo, a, b, hi);
    }
    if let Some((a, b)) = c_split2(inp, full_lo, hi, "__H") {
        return demangle_templated_function(inp, cfg, full_lo, a, b, hi);
    }
    Err(DemangleError::UnrecognizedSpecialMethod(inp.slice(op_lo, op_hi)))
}

/// Demangles an operator method: `lo..mid` is the operator, `mid + 2..hi`
/// what follows its `__`; `lo..hi` is the symbol after its leading `__`.
fn demangle_operator<'s>(inp: &Input<'s>, cfg: &DemangleConfig, lo: usize, mid: usize, hi: usize, full_lo: usize) -> (res: Result<Vec<char>, DemangleError<'s>>)
    requires
        inp.wf(),
        full_lo + 2 == lo,
        lo <= mid,
        mid + 2 <= hi <= inp@.len(),
    ensures
        not_non_ascii(res),
        lift_text(res) == operator(
            inp@.subrange(lo as int, mid as int),
            inp@.subrange(mid + 2, hi as int),
            inp@.subrange(lo as int, hi as int),
            inp@.subrange(full_lo as int, hi as int),
            *cfg,
        ),
{
    let name = match demangle_operator_method_name(inp, cfg, lo, mid)? {
        Some(n) => n,
        None => {
            return demangle_special_fallback(inp, cfg, lo, mid, lo, hi, full_lo);
        },
    };
    let rest = mid + 2;
    if rest < hi && inp.at(rest) == 'F' {
        proof {
            lemma_skip(inp@, rest as int, hi as int, 1);
        }
        return demangle_method_call(inp, cfg, rest + 1, hi, None, name, "");
    }
    let (r, suffix) = demangle_method_qualifier(inp, rest, hi);
    let (r2, (class, _typ)) = demangle_class(inp, cfg, r, hi, NameKind::ClassOnOperator, true)?;
    demangle_method_call(inp, cfg, r2, hi, Some(class), name, suffix)
}

/// Demangles a symbol after its leading `__`: `lo..hi` follows it and
/// `full_lo..hi` is the whole symbol.
pub fn demangle_special<'s>(inp: &Input<'s>, cfg: &DemangleConfig, lo: usize, hi: usize, full_lo: usize) -> (res: Result<Vec<char>, DemangleError<'s>>)
    requires
        inp.wf(),
        full_lo + 2 == lo,
        lo <= hi <= inp@.len(),
    ensures
        not_non_ascii(res),
        lift_text(res) == special(inp@.subrange(lo as int, hi as int), inp@.subrange(full_lo as int, hi as int), *cfg),
{
    let ghost s = inp@.subrange(lo as int, hi as int);
    if lo == hi {
        return Err(DemangleError::RanOutWhileDemanglingSpecial);
    }
    let c = inp.at(lo);
    if '1' <= c && c <= '9' {
        let (r, class) = custom_name_in(inp, lo, hi, NameKind::ClassOnConstructor)?;
        let name = class.clone();
        return demangle_method_call(inp, cfg, r, hi, Some(class), name, "");
    }
    proof {
        reveal_strlit("tf");
        reveal_strlit("ti");
        reveal_strlit("__");
    }
    if inp.starts_with(lo, hi, "tf") {
        proof {
            lemma_skip(inp@, lo as int, hi as int, 2);
        }
        return demangle_type_info_function(inp, cfg, lo + 2, hi);
    }
    if inp.starts_with(lo, hi, "ti") {
        proof {
            lemma_skip(inp@, lo as int, hi as int, 2);
        }
        return demangle_type_info_node(inp, cfg, lo + 2, hi);
    }
    if c == 't' || c == 'Q' {
        let (r, (class, typ)) = demangle_class(inp, cfg, lo, hi, NameKind::ClassOnConstructor, true)?;
        return demangle_method_call(inp, cfg, r, hi, Some(class), typ, "");
    }
    match find_in(inp, lo, hi, "__") {
        None => Err(DemangleError::InvalidSpecialMethod(inp.slice(lo, hi))),
        Some(i) => {
            proof {
                lemma_find_from_bound(s, "__"@, 0);
            }
            assert(s.take(i - lo) =~= inp@.subrange(lo as int, i as int));
            assert(s.skip(i - lo + 2) =~= inp@.subrange(i + 2, hi as int));
            demangle_operator(inp, cfg, lo, i, hi, full_lo)
        },
    }
}

/// Reads the class or namespace a templated function belongs to, at the
/// start of `lo..hi`, when the template arguments did not name one
/// (`owner`).
fn demangle_templated_owner<'s>(inp: &Input<'s>, cfg: &DemangleConfig, lo: usize, hi: usize, owner: Option<Vec<char>>) -> (res: Result<
    (usize, Option<Vec<char>>),
    DemangleError<'s>,
>)
    requires
        inp.wf(),
        lo <= hi <= inp@.len(),
    ensures
        not_non_ascii(res),
        match templated_owner(inp@.subrange(lo as int, hi as int), opt_text_view(owner), *cfg) {
            Ok((r, o)) => res matches Ok((p, o2)) && lo <= p <= hi && r == inp@.subrange(p as int, hi as int) && opt_text_view(o2) == o,
            Err(e) => res matches Err(e2) && e2@ == e,
        },
{
    if owner.is_some() {
        return Ok((lo, owner));
    }
    if lo < hi && '1' <= inp.at(lo) && inp.at(lo) <= '9' {
        let (r, n) = custom_name_in(inp, lo, hi, NameKind::NamespaceOnTemplatedFunction)?;
        Ok((r, Some(n)))
    } else if lo < hi && inp.at(lo) == 't' {
        proof {
            lemma_skip(inp@, lo as int, hi as int, 1);
        }
        let empty = ArgVec::new(cfg, None);
        let (r, (template, _typ)) = demangle_template(inp, cfg, lo + 1, hi, &empty, false)?;
        Ok((r, Some(template)))
    } else if lo < hi && inp.at(lo) == 'Q' {
        proof {
            lemma_skip(inp@, lo as int, hi as int, 1);
        }
        let empty = ArgVec::new(cfg, None);
        let (r, (namespaces, _trailing)) = demangle_namespaces(inp, cfg, lo + 1, hi, &empty, false)?;
        Ok((r, Some(namespaces)))
    } else {
        Ok((lo, None))
    }
}

/// Demangles a templated function named `f_lo..f_hi`, whose template
/// arguments, owner, argument list and return type are `lo..hi`. Arrays in
/// the template arguments get their length fixed up; arrays elsewhere in
/// the symbol do not.
#[verifier::spinoff_prover]
#[verifier::rlimit(50)]
pub fn demangle_templated_function<'s>(inp: &Input<'s>, cfg: &DemangleConfig, f_lo: usize, f_hi: usize, lo: usize, hi: usize) -> (res: Result<Vec<char>, DemangleError<'s>>)
    requires
        inp.wf(),
        f_lo <= f_hi <= inp@.len(),
        lo <= hi <= inp@.len(),
    ensures
        not_non_ascii(res),
        lift_text(res) == templated_function(inp@.subrange(f_lo as int, f_hi as int), inp@.subrange(lo as int, hi as int), *cfg),
{
    let (r, (template_args, typ)) = demangle_template_with_return_type(inp, cfg, lo, hi, true)?;
    let (r, suffix) = demangle_method_qualifier(inp, r, hi);
    let (r, owner) = demangle_templated_owner(inp, cfg, r, hi, typ)?;
    let namespace = clone_opt_text(&owner);
    let (r, argument_list) = demangle_argument_list_impl(inp, cfg, r, hi, namespace, &template_args, false, false)?;
    if !(r < hi && inp.at(r) == '_') {
        return Err(DemangleError::MalformedTemplateWithReturnTypeMissingReturnType(inp.slice(r, hi)));
    }
    proof {
        lemma_skip(inp@, r as int, hi as int, 1);
    }
    let parsed = ArgVec::new(cfg, clone_opt_text(&owner));
    let (r2, ret) = demangle_argument(inp, cfg, r + 1, hi, &parsed, &template_args, false)?;
    let (return_type, array_qualifiers) = match ret {
        DemangledArg::Plain(t, a) => (t, a),
        _ => {
            return Err(DemangleError::MalformedTemplateWithReturnTypeMissingReturnType(inp.slice(r + 1, hi)));
        },
    };
    if r2 < hi {
        return Err(DemangleError::TrailingDataAfterReturnTypeOfMalformedTemplateWithReturnType(inp.slice(r2, hi)));
    }
    let joined_template_args = template_args.join();
    let joined_args = argument_list.join();
    let ghost ret_v = return_type@;
    let mut out = return_type;
    match &array_qualifiers {
        Some(a) => {
            if cfg.fix_array_in_return_position {
                push_lit(&mut out, " (");
                push_text(&mut out, &a.inner_post_qualifiers);
            } else {
                a.push_text(&mut out);
                push_lit(&mut out, " ");
            }
        },
        None => push_lit(&mut out, " "),
    }
    match &owner {
        Some(o) => {
            push_text(&mut out, o);
            push_lit(&mut out, "::");
        },
        None => {},
    }
    let name = inp.text(f_lo, f_hi);
    push_text(&mut out, &name);
    push_template_brackets(&mut out, &joined_template_args);
    push_lit(&mut out, "(");
    push_text(&mut out, &joined_args);
    push_lit(&mut out, ")");
    push_lit(&mut out, suffix);
    match &array_qualifiers {
        Some(a) => {
            if cfg.fix_array_in_return_position {
                push_lit(&mut out, ")");
                push_text(&mut out, &a.arrays);
            }
        },
        None => {},
    }
    assert(out@ =~= templated_function_text(
        ret_v,
        opt_aq_view(array_qualifiers),
        opt_text_view(owner),
        name@,
        joined_template_args@,
        joined_args@,
        suffix@,
        *cfg,
    ));
    Ok(out)
}

/// Writes a global constructor, destructor or frame (`which`) keyed to the
/// symbol `lo..hi`, whose demangling is `demangled`.
fn demangle_keyed_text<'s>(inp: &Input<'s>, cfg: &DemangleConfig, lo: usize, hi: usize, which: &str, is_constructor: bool, demangled: Result<Vec<char>, DemangleError<'s>>) -> (res: Result<Vec<char>, DemangleError<'s>>)
    requires
        inp.wf(),
        lo <= hi <= inp@.len(),
    ensures
        lift_text(res) == keyed_text(inp@.subrange(lo as int, hi as int), which@, is_constructor, lift_text(demangled), *cfg),
        not_non_ascii(demangled) ==> not_non_ascii(res),
{
    if cfg.preserve_namespaced_global_constructor_bug && is_constructor && inp.starts_with(lo, hi, "__Q") {
        return demangled;
    }
    let mut out = lit("global ");
    push_lit(&mut out, which);
    push_lit(&mut out, " keyed to ");
    match demangled {
        Ok(d) => push_text(&mut out, &d),
        Err(_) => {
            let rest = inp.text(lo, hi);
            push_text(&mut out, &rest);
        },
    }
    Ok(out)
}

/// Demangles a global constructor, destructor or frame keyed to a symbol:
/// `lo..hi` follows the `_GLOBAL_$` of the whole symbol `full_lo..hi`.
pub fn demangle_global_sym_keyed<'s>(inp: &Input<'s>, cfg: &DemangleConfig, lo: usize, hi: usize, full_lo: usize) -> (res: Result<Vec<char>, DemangleError<'s>>)
    requires
        inp.wf(),
        full_lo < lo <= hi <= inp@.len(),
    ensures
        not_non_ascii(res),
        lift_text(res) == global_sym_keyed(inp@.subrange(lo as int, hi as int), inp@.subrange(full_lo as int, hi as int), *cfg),
    decreases hi - full_lo, 1nat,
{
    proof {
        reveal_strlit("I$");
        reveal_strlit("D$");
        reveal_strlit("F$");
    }
    let (which, is_constructor) = if inp.starts_with(lo, hi, "I$") {
        ("constructors", true)
    } else if inp.starts_with(lo, hi, "D$") {
        ("destructors", false)
    } else if inp.starts_with(lo, hi, "F$") {
        if cfg.demangle_global_keyed_frames {
            ("frames", false)
        } else {
            return demangle_impl(inp, cfg, full_lo, hi, false);
        }
    } else {
        return Err(DemangleError::InvalidGlobalSymKeyed(inp.slice(lo, hi)));
    };
    proof {
        lemma_skip(inp@, lo as int, hi as int, 2);
    }
    let demangled = demangle_impl(inp, cfg, lo + 2, hi, false);
    demangle_keyed_text(inp, cfg, lo + 2, hi, which, is_constructor, demangled)
}

/// Demangles the symbol `lo..hi`; `allow_global_sym_keyed` lets it be a
/// global constructor, destructor or frame keyed to a symbol.
pub fn demangle_impl<'s>(inp: &Input<'s>, cfg: &DemangleConfig, lo: usize, hi: usize, allow_global_sym_keyed: bool) -> (res: Result<Vec<char>, DemangleError<'s>>)
    requires
        inp.wf(),
        lo <= hi <= inp@.len(),
    ensures
        not_non_ascii(res),
        lift_text(res) == demangle_symbol(inp@.subrange(lo as int, hi as int), *cfg, allow_global_sym_keyed),
    decreases hi - lo, (if allow_global_sym_keyed { 2nat } else { 0nat }),
{
    proof {
        reveal_strlit("_$_");
        reveal_strlit("__");
        reveal_strlit("_vt");
    }
    if inp.starts_with(lo, hi, "_$_") {
        proof {
            lemma_skip(inp@, lo as int, hi as int, 3);
        }
        return demangle_destructor(inp, cfg, lo + 3, hi);
    }
    if inp.starts_with(lo, hi, "__") {
        proof {
            lemma_skip(inp@, lo as int, hi as int, 2);
        }
        return demangle_special(inp, cfg, lo + 2, hi, lo);
    }
    if let Some(p) = c_cond_and_strip_prefix_and_char(inp, lo, hi, allow_global_sym_keyed, "_GLOBAL_", '$') {
        return demangle_global_sym_keyed(inp, cfg, p, hi, lo);
    }
    if let Some((a, b)) = c_split2(inp, lo, hi, "__F") {
        return demangle_free_function(inp, cfg, lo, a, b, hi);
    }
    if let Some((a, b, _c)) = c_split2_r_starts_with(inp, lo, hi) {
        return demangle_method(inp, cfg, lo, a, b, hi);
    }
    if let Some((a, b)) = c_split2(inp, lo, hi, "__H") {
        return demangle_templated_function(inp, cfg, lo, a, b, hi);
    }
    if let Some((a, b)) = c_split2(inp, lo, hi, "__Q") {
        return demangle_namespaced_function(inp, cfg, lo, a, b, hi);
    }
    if inp.starts_with(lo, hi, "_vt") {
        proof {
            lemma_skip(inp@, lo as int, hi as int, 3);
        }
        return demangle_virtual_table(inp, cfg, lo + 3, hi);
    }
    if let Some((a, b)) = c_split2(inp, lo, hi, "$") {
        return demangle_namespaced_global(inp, cfg, lo, a, b, hi);
    }
    Err(DemangleError::NotMangled)
}

/// `String::push`: appends the character `c` to `s`.
#[verifier::external_body]
fn string_push(s: &mut String, c: char)
    ensures
        final(s)@ == old(s)@.push(c),
{
    s.push(c)
}

/// The characters of `v` as a `String`.
fn chars_to_string(v: &Vec<char>) -> (s: String)
    ensures
        s@ == v@,
{
    let mut s = String::new();
    let n = v.len();
    for i in 0..n
        invariant
            n == v@.len(),
            s@ == v@.take(i as int),
    {
        string_push(&mut s, v[i]);
        assert(s@ =~= v@.take(i + 1));
    }
    assert(v@.take(n as int) =~= v@);
    s
}

/// A result holding a `String`, as its view.
pub open spec fn lift_string(r: Result<String, DemangleError>) -> Result<Seq<char>, DemErr> {
    match r {
        Ok(s) => Ok(s@),
        Err(e) => Err(e@),
    }
}

/// Demangle a symbol.
///
/// See [`DemangleConfig`] for tweaking the demangled output. A symbol that
/// is not ASCII fails with `NonAscii`.
pub fn demangle<'s>(sym: &'s str, config: &DemangleConfig) -> (res: Result<String, DemangleError<'s>>)
    ensures
        lift_string(res) == demangled(sym@, *config),
        res matches Err(DemangleError::NonAscii) <==> !vstd::utf8::is_ascii_chars(sym@),
{
    if !sym.is_ascii() {
        return Err(DemangleError::NonAscii);
    }
    let inp = Input::from_ascii(sym);
    let n = inp.len();
    assert(inp@.subrange(0, n as int) =~= sym@);
    match demangle_impl(&inp, config, 0, n, true) {
        Ok(out) => Ok(chars_to_string(&out)),
        Err(e) => Err(e),
    }
}

/// The demangling of `sym`, or `sym` itself when it cannot be demangled.
pub fn demangle_or_echo(sym: &str, config: &DemangleConfig) -> (s: String)
    ensures
        s@ == match demangled(sym@, *config) {
            Ok(t) => t,
            Err(_) => sym@,
        },
{
    match demangle(sym, config) {
        Ok(d) => d,
        Err(_) => sym.to_owned(),
    }
}

/// The characters with the Unicode `White_Space` property, which
/// `str::trim` takes off both ends of a text.
pub open spec fn is_white_space(c: char) -> bool {
    ('\u{9}' <= c <= '\u{d}') || c == ' ' || c == '\u{85}' || c == '\u{a0}' || c == '\u{1680}'
        || ('\u{2000}' <= c <= '\u{200a}') || c == '\u{2028}' || c == '\u{2029}' || c == '\u{202f}'
        || c == '\u{205f}' || c == '\u{3000}'
}

/// `t` without its leading white space.
pub open spec fn trim_white_start(t: Seq<char>) -> Seq<char>
    decreases t.len(),
{
    if t.len() > 0 && is_white_space(t[0]) {
        trim_white_start(t.skip(1))
    } else {
        t
    }
}

/// `t` without its trailing white space.
pub open spec fn trim_white_end(t: Seq<char>) -> Seq<char>
    decreases t.len(),
{
    if t.len() > 0 && is_white_space(t.last()) {
        trim_white_end(t.drop_last())
    } else {
        t
    }
}

/// `t` without white space at either end, as `str::trim` gives it.
pub open spec fn trim_white(t: Seq<char>) -> Seq<char> {
    trim_white_end(trim_white_start(t))
}

/// Whether `c` is white space.
fn is_white_space_exec(c: char) -> (b: bool)
    ensures
        b == is_white_space(c),
{
    ('\u{9}' <= c && c <= '\u{d}') || c == ' ' || c == '\u{85}' || c == '\u{a0}' || c == '\u{1680}'
        || ('\u{2000}' <= c && c <= '\u{200a}') || c == '\u{2028}' || c == '\u{2029}' || c == '\u{202f}'
        || c == '\u{205f}' || c == '\u{3000}'
}

/// Demangles one line of input, without the white space around it.
pub fn demangle_line<'s>(line: &'s str, config: &DemangleConfig) -> (res: Result<String, DemangleError<'s>>)
    ensures
        lift_string(res) == demangled(trim_white(line@), *config),
{
    let inp = Input::from_str(line);
    let n = inp.len();
    assert(inp@.subrange(0, n as int) =~= inp@);
    let mut lo: usize = 0;
    while lo < n && is_white_space_exec(inp.at(lo))
        invariant
            inp.wf(),
            inp@ == line@,
            n == inp@.len(),
            lo <= n,
            trim_white_start(inp@.subrange(lo as int, n as int)) == trim_white_start(line@),
        decreases n - lo,
    {
        assert(inp@.subrange(lo as int, n as int).skip(1) =~= inp@.subrange(lo + 1, n as int));
        lo = lo + 1;
    }
    assert(trim_white_start(inp@.subrange(lo as int, n as int)) == inp@.subrange(lo as int, n as int));
    let mut hi: usize = n;
    while hi > lo && is_white_space_exec(inp.at(hi - 1))
        invariant
            inp.wf(),
            inp@ == line@,
            n == inp@.len(),
            lo <= hi <= n,
            trim_white_end(inp@.subrange(lo as int, hi as int)) == trim_white(line@),
        decreases hi,
    {
        assert(inp@.subrange(lo as int, hi as int).drop_last() =~= inp@.subrange(lo as int, hi - 1));
        hi = hi - 1;
    }
    demangle(inp.slice(lo, hi), config)
}

/// A symbol that is not ASCII is never demangled: it fails with
/// `NonAscii`, whatever the configuration.
pub proof fn lemma_non_ascii_fails(sym: Seq<char>, cfg: DemangleConfig)
    requires
        !vstd::utf8::is_ascii_chars(sym),
    ensures
        demangled(sym, cfg) == Err::<Seq<char>, DemErr>(DemErr::NonAscii),
{
}

/// `_GLOBAL_$I$` followed by a symbol `x` is the global constructors keyed
/// to `x`: the text `global constructors keyed to ` and then the
/// demangling of `x`, or `x` itself when it does not demangle. The one
/// exception: with `preserve_namespaced_global_constructor_bug`, a
/// constructor keyed to a namespaced function (`x` starts with `__Q`) is
/// that function's demangling alone. (`demangle` gives `demangle_symbol`
/// of an ASCII symbol, with `allow_global_sym_keyed` set.)
pub proof fn lemma_global_constructors(x: Seq<char>, cfg: DemangleConfig)
    ensures
        demangle_symbol("_GLOBAL_$I$"@ + x, cfg, true) == (if cfg.preserve_namespaced_global_constructor_bug && starts_with(x, "__Q"@) {
            demangle_symbol(x, cfg, false)
        } else {
            Ok("global constructors keyed to "@ + match demangle_symbol(x, cfg, false) {
                Ok(d) => d,
                Err(_) => x,
            })
        }),
{
    lemma_global_keyed(x, 'I', "constructors"@, true, cfg);
    reveal_strlit("_GLOBAL_$I$");
    reveal_strlit("_GLOBAL_$");
    assert("_GLOBAL_$I$"@ + x =~= "_GLOBAL_$"@ + seq!['I', '$'] + x);
    lemma_keyed_words();
}

/// `_GLOBAL_$D$` followed by a symbol `x` is the global destructors keyed
/// to `x`: the text `global destructors keyed to ` and then the demangling
/// of `x`, or `x` itself when it does not demangle.
pub proof fn lemma_global_destructors(x: Seq<char>, cfg: DemangleConfig)
    ensures
        demangle_symbol("_GLOBAL_$D$"@ + x, cfg, true) == Ok::<Seq<char>, DemErr>(
            "global destructors keyed to "@ + match demangle_symbol(x, cfg, false) {
                Ok(d) => d,
                Err(_) => x,
            },
        ),
{
    lemma_global_keyed(x, 'D', "destructors"@, false, cfg);
    reveal_strlit("_GLOBAL_$D$");
    reveal_strlit("_GLOBAL_$");
    assert("_GLOBAL_$D$"@ + x =~= "_GLOBAL_$"@ + seq!['D', '$'] + x);
    lemma_keyed_words();
}

/// `_GLOBAL_$F$` followed by a symbol `x` is, with
/// `demangle_global_keyed_frames`, the global frames keyed to `x`: the text
/// `global frames keyed to ` and then the demangling of `x`, or `x` itself
/// when it does not demangle. Without that setting, it is demangled as any
/// other kind of symbol would be, as c++filt does.
pub proof fn lemma_global_frames(x: Seq<char>, cfg: DemangleConfig)
    ensures
        cfg.demangle_global_keyed_frames ==> demangle_symbol("_GLOBAL_$F$"@ + x, cfg, true) == Ok::<Seq<char>, DemErr>(
            "global frames keyed to "@ + match demangle_symbol(x, cfg, false) {
                Ok(d) => d,
                Err(_) => x,
            },
        ),
        !cfg.demangle_global_keyed_frames ==> demangle_symbol("_GLOBAL_$F$"@ + x, cfg, true) == demangle_symbol("_GLOBAL_$F$"@ + x, cfg, false),
{
    lemma_global_keyed(x, 'F', "frames"@, false, cfg);
    reveal_strlit("_GLOBAL_$F$");
    reveal_strlit("_GLOBAL_$");
    assert("_GLOBAL_$F$"@ + x =~= "_GLOBAL_$"@ + seq!['F', '$'] + x);
    lemma_keyed_words();
}

/// The words of `keyed_text`, put together.
proof fn lemma_keyed_words()
    ensures
        "global "@ + "constructors"@ + " keyed to "@ == "global constructors keyed to "@,
        "global "@ + "destructors"@ + " keyed to "@ == "global destructors keyed to "@,
        "global "@ + "frames"@ + " keyed to "@ == "global frames keyed to "@,
{
    reveal_strlit("global ");
    reveal_strlit(" keyed to ");
    reveal_strlit("constructors");
    reveal_strlit("destructors");
    reveal_strlit("frames");
    reveal_strlit("global constructors keyed to ");
    reveal_strlit("global destructors keyed to ");
    reveal_strlit("global frames keyed to ");
    assert("global "@ + "constructors"@ + " keyed to "@ =~= "global constructors keyed to "@);
    assert("global "@ + "destructors"@ + " keyed to "@ =~= "global destructors keyed to "@);
    assert("global "@ + "frames"@ + " keyed to "@ =~= "global frames keyed to "@);
}

/// How `_GLOBAL_$`, the letter `k`, `$` and then `x` demangles.
proof fn lemma_global_keyed(x: Seq<char>, k: char, which: Seq<char>, is_constructor: bool, cfg: DemangleConfig)
    requires
        (k == 'I' && which == "constructors"@ && is_constructor)
            || (k == 'D' && which == "destructors"@ && !is_constructor)
            || (k == 'F' && which == "frames"@ && !is_constructor),
    ensures
        ({
            let t = "_GLOBAL_$"@ + seq![k, '$'] + x;
            &&& (k != 'F' || cfg.demangle_global_keyed_frames) ==> demangle_symbol(t, cfg, true) == keyed_text(x, which, is_constructor, demangle_symbol(x, cfg, false), cfg)
            &&& (k == 'F' && !cfg.demangle_global_keyed_frames) ==> demangle_symbol(t, cfg, true) == demangle_symbol(t, cfg, false)
        }),
{
    let t = "_GLOBAL_$"@ + seq![k, '$'] + x;
    reveal_strlit("_GLOBAL_$");
    reveal_strlit("_GLOBAL_");
    reveal_strlit("_$_");
    reveal_strlit("__");
    reveal_strlit("I$");
    reveal_strlit("D$");
    reveal_strlit("F$");
    assert(t[1] == 'G');
    assert(!starts_with(t, "_$_"@)) by {
        assert(t.take(3)[1] != "_$_"@[1]);
    }
    assert(!starts_with(t, "__"@)) by {
        assert(t.take(2)[1] != "__"@[1]);
    }
    assert(t.take(8) =~= "_GLOBAL_"@);
    let s = t.skip(9);
    assert(s =~= seq![k, '$'] + x);
    assert(cond_strip_prefix_and_char(t, true, "_GLOBAL_"@, '$') == Some(s));
    assert(s.skip(2) =~= x);
    assert(s.take(2) =~= seq![k, '$']);
    assert("I$"@ =~= seq!['I', '$']);
    assert("D$"@ =~= seq!['D', '$']);
    assert("F$"@ =~= seq!['F', '$']);
    assert(starts_with(s, "I$"@) <==> k == 'I') by {
        if starts_with(s, "I$"@) {
            assert(s.take(2)[0] == "I$"@[0]);
        }
    }
    assert(starts_with(s, "D$"@) <==> k == 'D') by {
        if starts_with(s, "D$"@) {
            assert(s.take(2)[0] == "D$"@[0]);
        }
    }
    assert(starts_with(s, "F$"@) <==> k == 'F') by {
        if starts_with(s, "F$"@) {
            assert(s.take(2)[0] == "F$"@[0]);
        }
    }
}

} // verus!
