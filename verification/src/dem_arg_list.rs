//! Argument lists, and the arguments already seen that later ones refer to.
use vstd::prelude::*;

use crate::dem::{in_window, lift, no_progress};
use crate::dem_arg::{argument, demangle_argument, fp_text, mp_text, opt_aq_text, push_opt_aq, DArg, DemangledArg};
use crate::demangle_config::DemangleConfig;
use crate::demangle_error::{not_non_ascii, DemErr, DemangleError};
use crate::input::Input;
use crate::text::{join_sep, join_texts, lit, push_lit};

verus! {

/// An argument as it is kept in an argument list.
pub enum ProcessedArg {
    Plain(Vec<char>),
    Lookback { index: usize },
    Ellipsis,
}

/// A stored argument as text.
pub ghost enum ProcessedArgV {
    Plain(Seq<char>),
    Lookback(usize),
    Ellipsis,
}

impl View for ProcessedArg {
    type V = ProcessedArgV;

    open spec fn view(&self) -> ProcessedArgV {
        match self {
            ProcessedArg::Plain(p) => ProcessedArgV::Plain(p@),
            ProcessedArg::Lookback { index } => ProcessedArgV::Lookback(*index),
            ProcessedArg::Ellipsis => ProcessedArgV::Ellipsis,
        }
    }
}

/// The arguments of a list demangled so far. When a namespace (the class of
/// a method) is given, it counts as the argument at index 0.
pub struct ArgVec {
    ellipsis_space: bool,
    namespace: Option<Vec<char>>,
    args: Vec<ProcessedArg>,
    /// Set when a closing ellipsis is kept out of `args`, to be written
    /// right after the last comma.
    trailing_ellipsis: bool,
}

/// A list of arguments as text.
pub ghost struct ArgVecV {
    pub ellipsis_space: bool,
    pub namespace: Option<Seq<char>>,
    pub args: Seq<ProcessedArgV>,
    pub trailing_ellipsis: bool,
}

/// An optional text as its characters.
pub open spec fn opt_text_view(o: Option<Vec<char>>) -> Option<Seq<char>> {
    match o {
        Some(v) => Some(v@),
        None => None,
    }
}

impl View for ArgVec {
    type V = ArgVecV;

    closed spec fn view(&self) -> ArgVecV {
        ArgVecV {
            ellipsis_space: self.ellipsis_space,
            namespace: opt_text_view(self.namespace),
            args: self.args@.map_values(|a: ProcessedArg| a@),
            trailing_ellipsis: self.trailing_ellipsis,
        }
    }
}

/// An empty list.
pub open spec fn av_new(cfg: DemangleConfig, namespace: Option<Seq<char>>) -> ArgVecV {
    ArgVecV {
        ellipsis_space: cfg.ellipsis_emit_space_after_comma,
        namespace,
        args: seq![],
        trailing_ellipsis: false,
    }
}

/// Every look-back refers to an argument before it, and an ellipsis is
/// kept out of the arguments only when it is written without a space.
pub open spec fn av_wf(av: ArgVecV) -> bool {
    &&& av.ellipsis_space ==> !av.trailing_ellipsis
    &&& forall|k: int|
        0 <= k < av.args.len() ==> (#[trigger] av.args[k] matches ProcessedArgV::Lookback(i) ==> (if av.namespace is Some {
            i == 0 || i - 1 < k
        } else {
            i < k
        }))
}

/// The argument at `index` of `args`, following look-backs.
pub open spec fn args_get(args: Seq<ProcessedArgV>, index: int) -> Option<Seq<char>>
    decreases index,
{
    if index < 0 || index >= args.len() {
        None
    } else {
        match args[index] {
            ProcessedArgV::Plain(p) => Some(p),
            ProcessedArgV::Lookback(i) => if i >= index {
                None
            } else {
                args_get(args, i as int)
            },
            ProcessedArgV::Ellipsis => Some("..."@),
        }
    }
}

/// The argument at `index`, the namespace counting as index 0 when there
/// is one.
pub open spec fn av_get(av: ArgVecV, index: int) -> Option<Seq<char>> {
    match av.namespace {
        Some(ns) => if index == 0 {
            Some(ns)
        } else {
            args_get(av.args, index - 1)
        },
        None => args_get(av.args, index),
    }
}

/// `av` with `a` added at the end.
pub open spec fn av_with(av: ArgVecV, a: ProcessedArgV) -> ArgVecV {
    ArgVecV { args: av.args.push(a), ..av }
}

/// Adds a demangled argument to the list: the new list and whether the list
/// has ended (after an ellipsis). `s` is the text the argument was read from
/// and `remaining` what follows it.
pub open spec fn av_push(av: ArgVecV, arg: DArg, s: Seq<char>, remaining: Seq<char>, allow_data_after_ellipsis: bool) -> Result<(ArgVecV, bool), DemErr> {
    match arg {
        DArg::Plain(p, aq) => Ok((av_with(av, ProcessedArgV::Plain(p + opt_aq_text(aq))), false)),
        DArg::FunctionPointer(fp) => Ok((av_with(av, ProcessedArgV::Plain(fp_text(fp))), false)),
        DArg::MethodPointer(mp) => Ok((av_with(av, ProcessedArgV::Plain(mp_text(mp))), false)),
        DArg::Repeat(count, index) => {
            let bad = match av.namespace {
                Some(_) => index != 0 && index - 1 >= av.args.len(),
                None => index >= av.args.len(),
            };
            if bad {
                Err(DemErr::InvalidRepeatingArgument(s))
            } else {
                Ok((ArgVecV { args: av.args + Seq::new(count as nat, |j: int| ProcessedArgV::Lookback(index)), ..av }, false))
            }
        },
        DArg::Ellipsis => if !allow_data_after_ellipsis && remaining.len() > 0 {
            Err(DemErr::TrailingDataAfterEllipsis(remaining))
        } else if !av.ellipsis_space {
            Ok((ArgVecV { trailing_ellipsis: true, ..av }, true))
        } else {
            Ok((av_with(av, ProcessedArgV::Ellipsis), true))
        },
    }
}

/// The text of one argument, given the texts of the arguments before it.
pub open spec fn resolve_item(av: ArgVecV, a: ProcessedArgV, prev: Seq<Seq<char>>) -> Seq<char> {
    match a {
        ProcessedArgV::Plain(p) => p,
        ProcessedArgV::Lookback(i) => match av.namespace {
            Some(ns) => if i == 0 {
                ns
            } else {
                prev[i - 1]
            },
            None => prev[i as int],
        },
        ProcessedArgV::Ellipsis => "..."@,
    }
}

/// The texts of the first `n` arguments.
pub open spec fn resolve_upto(av: ArgVecV, n: nat) -> Seq<Seq<char>>
    decreases n,
{
    if n == 0 {
        seq![]
    } else {
        let prev = resolve_upto(av, (n - 1) as nat);
        prev.push(resolve_item(av, av.args[n - 1], prev))
    }
}

/// The text of the whole list, the arguments separated by `, `.
pub open spec fn av_join(av: ArgVecV) -> Seq<char> {
    let out = join_sep(resolve_upto(av, av.args.len()), ", "@);
    if av.trailing_ellipsis {
        (if out.len() > 0 { out + ","@ } else { out }) + "..."@
    } else {
        out
    }
}

/// Arguments from the start of `t` onto `av`, until `t` ends, reaches `_`,
/// or an ellipsis ends the list: what is left, and the list.
#[verifier::opaque]
pub open spec fn arg_list_loop(t: Seq<char>, av: ArgVecV, template_args: ArgVecV, allow_data_after_ellipsis: bool, cfg: DemangleConfig, fixup: bool) -> Result<
    (Seq<char>, ArgVecV),
    DemErr,
>
    decreases t.len(), 3nat,
{
    if t.len() == 0 || t[0] == '_' {
        Ok((t, av))
    } else {
        match argument(t, av, template_args, cfg, fixup) {
            Err(e) => Err(e),
            Ok((r, b)) => match av_push(av, b, t, r, allow_data_after_ellipsis) {
                Err(e) => Err(e),
                Ok((av2, end)) => if end {
                    Ok((r, av2))
                } else if r.len() >= t.len() {
                    Err(no_progress())
                } else {
                    arg_list_loop(r, av2, template_args, allow_data_after_ellipsis, cfg, fixup)
                },
            },
        }
    }
}

/// The argument list at the start of `t`; `namespace` counts as its first
/// argument for look-backs.
#[verifier::opaque]
pub open spec fn arg_list_impl(t: Seq<char>, namespace: Option<Seq<char>>, template_args: ArgVecV, allow_data_after_ellipsis: bool, cfg: DemangleConfig, fixup: bool) -> Result<
    (Seq<char>, ArgVecV),
    DemErr,
>
    decreases t.len(), 4nat,
{
    arg_list_loop(t, av_new(cfg, namespace), template_args, allow_data_after_ellipsis, cfg, fixup)
}

/// The text of the argument list that makes up all of `t`.
pub open spec fn arg_list(t: Seq<char>, namespace: Option<Seq<char>>, template_args: ArgVecV, cfg: DemangleConfig, fixup: bool) -> Result<Seq<char>, DemErr> {
    match arg_list_impl(t, namespace, template_args, false, cfg, fixup) {
        Err(e) => Err(e),
        Ok((r, av)) => if r.len() > 0 {
            Err(DemErr::TrailingDataAfterArgumentList(r))
        } else {
            Ok(av_join(av))
        },
    }
}

proof fn lemma_resolve_upto_len(av: ArgVecV, n: nat)
    ensures
        resolve_upto(av, n).len() == n,
    decreases n,
{
    if n > 0 {
        lemma_resolve_upto_len(av, (n - 1) as nat);
    }
}

/// The text written for the argument at `k` is its text given the
/// arguments before it.
proof fn lemma_resolve_upto_item(av: ArgVecV, k: int, n: nat)
    requires
        0 <= k < n,
    ensures
        resolve_upto(av, n)[k] == resolve_item(av, av.args[k], resolve_upto(av, k as nat)),
    decreases n,
{
    lemma_resolve_upto_len(av, (n - 1) as nat);
    if k < n - 1 {
        lemma_resolve_upto_item(av, k, (n - 1) as nat);
    }
}

/// Without a namespace, the argument at `k` of a well-formed list, its
/// look-backs followed, is the text the list writes for it.
proof fn lemma_args_get_resolved(av: ArgVecV, k: int)
    requires
        av_wf(av),
        av.namespace is None,
        0 <= k < av.args.len(),
    ensures
        args_get(av.args, k) == Some(resolve_upto(av, av.args.len())[k]),
    decreases k,
{
    let n = av.args.len();
    lemma_resolve_upto_item(av, k, n);
    lemma_resolve_upto_len(av, k as nat);
    match av.args[k] {
        ProcessedArgV::Lookback(j) => {
            assert(j < k);
            lemma_args_get_resolved(av, j as int);
            lemma_resolve_upto_item(av, j as int, n);
            lemma_resolve_upto_item(av, j as int, k as nat);
        },
        _ => {},
    }
}

/// Looking an argument up by its index gives what the list writes for it:
/// without a namespace, the text of the argument at that index, look-backs
/// followed, and nothing past the last argument. With a namespace, index 0
/// is the namespace, index `i + 1` is the argument at `i` when that is not
/// a look-back, and nothing lies past the last argument.
pub proof fn lemma_get_agrees_with_join(av: ArgVecV, i: int)
    requires
        av_wf(av),
        0 <= i,
    ensures
        av.namespace is None ==> av_get(av, i) == (if i < av.args.len() {
            Some(resolve_upto(av, av.args.len())[i])
        } else {
            None
        }),
        av.namespace matches Some(ns) ==> av_get(av, 0) == Some(ns),
        av.namespace is Some && i < av.args.len() && !(av.args[i] is Lookback) ==> av_get(av, i + 1) == Some(resolve_upto(av, av.args.len())[i]),
        av.namespace is Some && i >= av.args.len() ==> av_get(av, i + 1) is None,
{
    if i < av.args.len() {
        if av.namespace is None {
            lemma_args_get_resolved(av, i);
        } else {
            lemma_resolve_upto_item(av, i, av.args.len());
        }
    }
}

/// The list `av` after adding, one after another, the plain arguments
/// `items`.
pub open spec fn av_push_plains(av: ArgVecV, items: Seq<Seq<char>>) -> ArgVecV
    decreases items.len(),
{
    if items.len() == 0 {
        av
    } else {
        match av_push(av_push_plains(av, items.drop_last()), DArg::Plain(items.last(), None), seq![], seq![], false) {
            Ok((v, _end)) => v,
            Err(_) => av,
        }
    }
}

/// Adding plain arguments to an empty list stores them as they are.
proof fn lemma_push_plains_args(cfg: DemangleConfig, items: Seq<Seq<char>>)
    ensures
        av_push_plains(av_new(cfg, None), items) == (ArgVecV {
            ellipsis_space: cfg.ellipsis_emit_space_after_comma,
            namespace: None,
            args: Seq::new(items.len(), |k: int| ProcessedArgV::Plain(items[k])),
            trailing_ellipsis: false,
        }),
    decreases items.len(),
{
    if items.len() > 0 {
        lemma_push_plains_args(cfg, items.drop_last());
        let prev = av_push_plains(av_new(cfg, None), items.drop_last());
        assert(items.last() + opt_aq_text(None) =~= items.last());
        assert(av_push_plains(av_new(cfg, None), items) == av_with(prev, ProcessedArgV::Plain(items.last())));
        assert(prev.args.push(ProcessedArgV::Plain(items.last())) =~= Seq::new(items.len(), |k: int| ProcessedArgV::Plain(items[k])));
    } else {
        assert(av_new(cfg, None).args =~= Seq::new(items.len(), |k: int| ProcessedArgV::Plain(items[k])));
    }
}

/// The texts a list of plain arguments, perhaps closed by an ellipsis,
/// writes: the arguments themselves, then `...`.
proof fn lemma_resolve_plains(av: ArgVecV, items: Seq<Seq<char>>, m: nat)
    requires
        m <= av.args.len(),
        av.args.len() <= items.len() + 1,
        forall|k: int| 0 <= k < items.len() && k < av.args.len() ==> av.args[k] == ProcessedArgV::Plain(items[k]),
        av.args.len() == items.len() + 1 ==> av.args[items.len() as int] == ProcessedArgV::Ellipsis,
    ensures
        resolve_upto(av, m) == (if m <= items.len() {
            items.take(m as int)
        } else {
            items.push("..."@)
        }),
    decreases m,
{
    if m > 0 {
        lemma_resolve_plains(av, items, (m - 1) as nat);
        if m <= items.len() {
            assert(items.take(m - 1).push(items[m - 1]) =~= items.take(m as int));
        } else {
            assert(items.take(items.len() as int) =~= items);
        }
    }
}

/// A join of non-empty texts is empty only when there are none.
proof fn lemma_join_sep_nonempty(items: Seq<Seq<char>>, sep: Seq<char>)
    requires
        items.len() > 0,
        items.last().len() > 0,
    ensures
        join_sep(items, sep).len() > 0,
{
}

/// A list of plain arguments is written as those arguments separated by
/// `, `. Closed by an ellipsis, it gets `...` as one more argument when
/// `ellipsis_emit_space_after_comma` is set; otherwise `,...` follows the
/// last argument, and `...` stands alone when there is none.
pub proof fn lemma_join_plains_and_ellipsis(cfg: DemangleConfig, items: Seq<Seq<char>>)
    requires
        forall|k: int| 0 <= k < items.len() ==> items[k].len() > 0,
    ensures
        av_join(av_push_plains(av_new(cfg, None), items)) == join_sep(items, ", "@),
        av_push(av_push_plains(av_new(cfg, None), items), DArg::Ellipsis, seq![], seq![], false) matches Ok((closed, end)) && end
            && av_join(closed) == (if cfg.ellipsis_emit_space_after_comma {
                join_sep(items.push("..."@), ", "@)
            } else if items.len() == 0 {
                "..."@
            } else {
                join_sep(items, ", "@) + ",..."@
            }),
{
    lemma_push_plains_args(cfg, items);
    let av = av_push_plains(av_new(cfg, None), items);
    lemma_resolve_plains(av, items, items.len());
    assert(items.take(items.len() as int) =~= items);
    let closed = if cfg.ellipsis_emit_space_after_comma {
        av_with(av, ProcessedArgV::Ellipsis)
    } else {
        ArgVecV { trailing_ellipsis: true, ..av }
    };
    if cfg.ellipsis_emit_space_after_comma {
        lemma_resolve_plains(closed, items, closed.args.len());
    } else {
        lemma_resolve_plains(closed, items, closed.args.len());
        reveal_strlit(",...");
        reveal_strlit(",");
        reveal_strlit("...");
        if items.len() > 0 {
            lemma_join_sep_nonempty(items, ", "@);
            assert(join_sep(items, ", "@) + ","@ + "..."@ =~= join_sep(items, ", "@) + ",..."@);
        } else {
            assert(join_sep(items, ", "@) =~= seq![]);
            assert(seq![] + "..."@ =~= "..."@);
        }
    }
}

impl ArgVec {
    /// Every look-back refers to an argument before it, and an ellipsis is
    /// kept out of the arguments only when it is written without a space.
    pub closed spec fn wf(&self) -> bool {
        av_wf(self@)
    }

    /// An empty list; `namespace` counts as its first argument when given.
    pub fn new(config: &DemangleConfig, namespace: Option<Vec<char>>) -> (r: ArgVec)
        ensures
            r@ == av_new(*config, opt_text_view(namespace)),
            r.wf(),
    {
        let r = ArgVec {
            ellipsis_space: config.ellipsis_emit_space_after_comma,
            namespace,
            args: Vec::new(),
            trailing_ellipsis: false,
        };
        assert(r@.args =~= seq![]);
        r
    }

    /// The argument at `index`, the namespace counting as index 0 when
    /// there is one.
    pub fn get(&self, index: usize) -> (r: Option<Vec<char>>)
        ensures
            opt_text_view(r) == av_get(self@, index as int),
    {
        let ghost want = av_get(self@, index as int);
        let mut i = index;
        match &self.namespace {
            Some(namespace) => {
                if i == 0 {
                    return Some(namespace.clone());
                } else {
                    i = i - 1;
                }
            },
            None => {},
        }
        let ghost args = self@.args;
        assert(want == args_get(args, i as int));
        loop
            invariant
                args == self@.args,
                args == self.args@.map_values(|a: ProcessedArg| a@),
                want == args_get(args, i as int),
                want == av_get(self@, index as int),
            decreases i,
        {
            if i >= self.args.len() {
                return None;
            }
            assert(args[i as int] == self.args@[i as int]@);
            match &self.args[i] {
                ProcessedArg::Plain(p) => {
                    return Some(p.clone());
                },
                ProcessedArg::Lookback { index: j } => {
                    if *j >= i {
                        return None;
                    }
                    i = *j;
                },
                ProcessedArg::Ellipsis => {
                    return Some(lit("..."));
                },
            }
        }
    }

    /// Adds a demangled argument to the list; gives whether the list has
    /// ended. `lo..p` is the text the argument was read from, within the
    /// window that ends at `hi`.
    pub fn push<'s>(&mut self, inp: &Input<'s>, arg: DemangledArg, lo: usize, p: usize, hi: usize, allow_data_after_ellipsis: bool) -> (r: Result<bool, DemangleError<'s>>)
        requires
            inp.wf(),
            lo <= p <= hi <= inp@.len(),
            old(self).wf(),
        ensures
            not_non_ascii(r),
            final(self).wf(),
            match av_push(old(self)@, arg@, inp@.subrange(lo as int, hi as int), inp@.subrange(p as int, hi as int), allow_data_after_ellipsis) {
                Ok((av, end)) => r == Ok::<bool, DemangleError<'s>>(end) && final(self)@ == av,
                Err(e) => r matches Err(e2) && e2@ == e && final(self)@ == old(self)@,
            },
    {
        let ghost old_args = self@.args;
        match arg {
            DemangledArg::Plain(mut plain, aq) => {
                push_opt_aq(&mut plain, &aq);
                self.args.push(ProcessedArg::Plain(plain));
                assert(self@.args =~= old_args.push(ProcessedArgV::Plain(plain@)));
                Ok(false)
            },
            DemangledArg::FunctionPointer(fp) => {
                self.args.push(ProcessedArg::Plain(fp.to_text()));
                assert(self@.args =~= old_args.push(ProcessedArgV::Plain(fp_text(fp@))));
                Ok(false)
            },
            DemangledArg::MethodPointer(mp) => {
                self.args.push(ProcessedArg::Plain(mp.to_text()));
                assert(self@.args =~= old_args.push(ProcessedArgV::Plain(mp_text(mp@))));
                Ok(false)
            },
            DemangledArg::Repeat { count, index } => {
                let bad = if self.namespace.is_some() {
                    index != 0 && index - 1 >= self.args.len()
                } else {
                    index >= self.args.len()
                };
                if bad {
                    return Err(DemangleError::InvalidRepeatingArgument(inp.slice(lo, hi)));
                }
                let ghost added = Seq::new(count as nat, |j: int| ProcessedArgV::Lookback(index));
                let mut j: usize = 0;
                while j < count
                    invariant
                        j <= count,
                        self@.args == old_args + added.take(j as int),
                        self@.namespace == old(self)@.namespace,
                        self@.ellipsis_space == old(self)@.ellipsis_space,
                        self@.trailing_ellipsis == old(self)@.trailing_ellipsis,
                        self.args@.len() == old_args.len() + j,
                        av_wf(old(self)@),
                        added == Seq::new(count as nat, |j: int| ProcessedArgV::Lookback(index)),
                        old_args == old(self)@.args,
                        av_wf(self@),
                        match self@.namespace {
                            Some(_) => index == 0 || index - 1 < old_args.len(),
                            None => index < old_args.len(),
                        },
                    decreases count - j,
                {
                    let ghost before = self@.args;
                    self.args.push(ProcessedArg::Lookback { index });
                    assert(self@.args =~= before.push(ProcessedArgV::Lookback(index)));
                    j = j + 1;
                    assert(before.push(ProcessedArgV::Lookback(index)) =~= old_args + added.take(j as int));
                }
                assert(added.take(count as int) =~= added);
                Ok(false)
            },
            DemangledArg::Ellipsis => {
                if !allow_data_after_ellipsis && p < hi {
                    return Err(DemangleError::TrailingDataAfterEllipsis(inp.slice(p, hi)));
                }
                if !self.ellipsis_space {
                    self.trailing_ellipsis = true;
                    assert(self@.args =~= old_args);
                    return Ok(true);
                }
                self.args.push(ProcessedArg::Ellipsis);
                assert(self@.args =~= old_args.push(ProcessedArgV::Ellipsis));
                Ok(true)
            },
        }
    }

    /// The text of the whole list, the arguments separated by `, `.
    pub fn join(&self) -> (r: Vec<char>)
        requires
            self.wf(),
        ensures
            r@ == av_join(self@),
    {
        let ghost av = self@;
        let n = self.args.len();
        let mut list: Vec<Vec<char>> = Vec::new();
        for k in 0..n
            invariant
                n == av.args.len(),
                av == self@,
                av_wf(av),
                list@.map_values(|v: Vec<char>| v@) == resolve_upto(av, k as nat),
                list@.len() == k,
        {
            proof {
                lemma_resolve_upto_len(av, k as nat);
            }
            let ghost prev = resolve_upto(av, k as nat);
            let item = match &self.args[k] {
                ProcessedArg::Plain(plain) => plain.clone(),
                ProcessedArg::Lookback { index } => {
                    assert(av.args[k as int] == ProcessedArgV::Lookback(*index));
                    match &self.namespace {
                        Some(namespace) => {
                            if *index == 0 {
                                namespace.clone()
                            } else {
                                assert(list@.map_values(|v: Vec<char>| v@)[*index - 1] == list@[*index - 1]@);
                                list[*index - 1].clone()
                            }
                        },
                        None => {
                            assert(list@.map_values(|v: Vec<char>| v@)[*index as int] == list@[*index as int]@);
                            list[*index].clone()
                        },
                    }
                },
                ProcessedArg::Ellipsis => lit("..."),
            };
            assert(item@ == resolve_item(av, av.args[k as int], prev));
            list.push(item);
            assert(list@.map_values(|v: Vec<char>| v@) =~= prev.push(item@));
        }
        let mut out = join_texts(&list, ", ");
        if self.trailing_ellipsis {
            if out.len() > 0 {
                push_lit(&mut out, ",");
            }
            push_lit(&mut out, "...");
        }
        out
    }
}

/// A result that is text, as its view.
pub open spec fn lift_text(r: Result<Vec<char>, DemangleError>) -> Result<Seq<char>, DemErr> {
    match r {
        Ok(v) => Ok(v@),
        Err(e) => Err(e@),
    }
}

/// Reads the argument list at the start of `lo..hi`, until the window
/// ends, reaches `_`, or an ellipsis ends the list; `namespace` counts as
/// its first argument for look-backs.
pub fn demangle_argument_list_impl<'s>(inp: &Input<'s>, cfg: &DemangleConfig, lo: usize, hi: usize, namespace: Option<Vec<char>>, template_args: &ArgVec, allow_data_after_ellipsis: bool, fixup: bool) -> (res: Result<
    (usize, ArgVec),
    DemangleError<'s>,
>)
    requires
        inp.wf(),
        lo <= hi <= inp@.len(),
    ensures
        not_non_ascii(res),
        lift(inp@, hi as int, res) == arg_list_impl(inp@.subrange(lo as int, hi as int), opt_text_view(namespace), template_args@, allow_data_after_ellipsis, *cfg, fixup),
        in_window(res, lo as int, hi as int),
        res matches Ok((_, av)) ==> av.wf(),
    decreases hi - lo, 4nat,
{
    proof {
        reveal_with_fuel(arg_list_impl, 1);
        reveal_with_fuel(arg_list_loop, 1);
        reveal_with_fuel(argument, 1);
    }
    let ghost whole = arg_list_impl(inp@.subrange(lo as int, hi as int), opt_text_view(namespace), template_args@, allow_data_after_ellipsis, *cfg, fixup);
    let mut arguments = ArgVec::new(cfg, namespace);
    let mut p = lo;
    let mut done = false;
    while !done && p < hi && inp.at(p) != '_'
        invariant
            inp.wf(),
            lo <= p <= hi <= inp@.len(),
            arguments.wf(),
            whole == arg_list_impl(inp@.subrange(lo as int, hi as int), opt_text_view(namespace), template_args@, allow_data_after_ellipsis, *cfg, fixup),
            !done ==> arg_list_loop(inp@.subrange(p as int, hi as int), arguments@, template_args@, allow_data_after_ellipsis, *cfg, fixup) == whole,
            done ==> whole == Ok::<(Seq<char>, ArgVecV), DemErr>((inp@.subrange(p as int, hi as int), arguments@)),
        decreases hi - p,
    {
        proof {
            reveal_with_fuel(arg_list_loop, 1);
            reveal_with_fuel(argument, 1);
        }
        let old_p = p;
        let (r, b) = demangle_argument(inp, cfg, p, hi, &arguments, template_args, fixup)?;
        let end = arguments.push(inp, b, old_p, r, hi, allow_data_after_ellipsis)?;
        p = r;
        if end {
            done = true;
        }
    }
    Ok((p, arguments))
}

/// Reads the argument list that makes up all of `lo..hi`, and gives its
/// text.
pub fn demangle_argument_list<'s>(inp: &Input<'s>, cfg: &DemangleConfig, lo: usize, hi: usize, namespace: Option<Vec<char>>, template_args: &ArgVec, fixup: bool) -> (res: Result<Vec<char>, DemangleError<'s>>)
    requires
        inp.wf(),
        lo <= hi <= inp@.len(),
    ensures
        not_non_ascii(res),
        lift_text(res) == arg_list(inp@.subrange(lo as int, hi as int), opt_text_view(namespace), template_args@, *cfg, fixup),
{
    let (remaining, argument_list) = demangle_argument_list_impl(inp, cfg, lo, hi, namespace, template_args, false, fixup)?;
    if remaining < hi {
        return Err(DemangleError::TrailingDataAfterArgumentList(inp.slice(remaining, hi)));
    }
    Ok(argument_list.join())
}

} // verus!
