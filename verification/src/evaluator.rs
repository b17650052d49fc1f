//! The evaluator: walks a parsed tree, resolves operator semantics
//! between successive calls, threads piped output, maintains the
//! function table, and dispatches external commands to the executor.
//! Each function returns exactly what the specification functions in
//! [`crate::semantics`] say it returns.

use vstd::prelude::*;

use crate::ast::{lemma_view_strings_concat, view_chain, view_elem, view_expr, view_func,
    view_scope, view_strings, wf_scope};
use crate::ast::{ChainElem, ChainElemV, Expr, ExprV, Func, FuncV, Operator, Scope};
use crate::parser::{parse, spec_parse, SyntaxError};
use crate::semantics::{eval_call_s, eval_chain_s, eval_scope_s, lookup, pipe_of, flush_of};
use crate::semantics::{Executor, Lines};

verus! {

/// Recursion budget: how deeply user-defined function calls may nest
/// within one evaluation.  Exceeding it aborts the evaluation instead
/// of overflowing the stack; see [`eval_scope`].
pub const EVAL_FUEL: u64 = 1024;

/// Model of an optional buffer of lines.
pub open spec fn opt_lines(v: Option<Vec<String>>) -> Option<Lines> {
    match v {
        Some(l) => Some(view_strings(l@)),
        None => None,
    }
}

/// An executable result agrees with a specified one: both ran out of
/// fuel, or both produced the same lines.
pub open spec fn lines_match(r: Option<Vec<String>>, s: Option<Lines>) -> bool {
    match r {
        Some(out) => s == Some(view_strings(out@)),
        None => s is None,
    }
}

/// Prepend already-produced output to the result of the remaining work.
pub open spec fn with_prefix(prefix: Lines, rest: Option<Lines>) -> Option<Lines> {
    match rest {
        Some(l) => Some(prefix + l),
        None => None,
    }
}

/// Model of a function table: the definitions it holds, in order.
pub open spec fn table_view(t: Seq<&Func>) -> Seq<FuncV> {
    t.map(|i: int, f: &Func| view_func(*f))
}

/// Execution context: the function table threaded through evaluation.
/// Entering a function body copies it, so callee-local definitions
/// never leak back to the caller.
pub struct NodeEvalCtx<'a> {
    pub funcs: Vec<&'a Func>,
}

impl<'a> NodeEvalCtx<'a> {
    /// The table's model.
    pub open spec fn funcs_v(&self) -> Seq<FuncV> {
        table_view(self.funcs@)
    }

    /// A fresh context with an empty function table.
    pub fn new() -> (r: Self)
        ensures
            r.funcs_v() == Seq::<FuncV>::empty(),
    {
        let r = NodeEvalCtx { funcs: Vec::new() };
        proof {
            assert(r.funcs_v() =~= Seq::<FuncV>::empty());
        }
        r
    }
}

/// Copy a context, entry for entry.
fn copy_ctx<'a>(ctx: &NodeEvalCtx<'a>) -> (r: NodeEvalCtx<'a>)
    ensures
        r.funcs_v() == ctx.funcs_v(),
{
    let mut fs: Vec<&'a Func> = Vec::new();
    let mut i: usize = 0;
    while i < ctx.funcs.len()
        invariant
            i <= ctx.funcs.len(),
            fs@ == ctx.funcs@.subrange(0, i as int),
        decreases ctx.funcs.len() - i,
    {
        let f: &'a Func = ctx.funcs[i];
        fs.push(f);
        proof {
            assert(fs@ =~= ctx.funcs@.subrange(0, i + 1 as int));
        }
        i += 1;
    }
    proof {
        assert(fs@ =~= ctx.funcs@);
    }
    NodeEvalCtx { funcs: fs }
}

/// Find the most recent definition of `name`, if any: the executable
/// counterpart of [`lookup`].
fn lookup_func<'a>(ctx: &NodeEvalCtx<'a>, name: &String) -> (r: Option<&'a Func>)
    ensures
        match r {
            Some(f) => lookup(ctx.funcs_v(), name@) == Some(view_func(*f)),
            None => lookup(ctx.funcs_v(), name@) is None,
        },
{
    let ghost tv = ctx.funcs_v();
    let mut i: usize = ctx.funcs.len();
    proof {
        assert(tv.subrange(0, i as int) =~= tv);
    }
    while i > 0
        invariant
            i <= ctx.funcs.len(),
            tv == ctx.funcs_v(),
            tv.len() == ctx.funcs@.len(),
            lookup(tv, name@) == lookup(tv.subrange(0, i as int), name@),
        decreases i,
    {
        let f: &'a Func = ctx.funcs[i - 1];
        let ghost sub = tv.subrange(0, i as int);
        proof {
            assert(sub[i - 1] == tv[i - 1]);
            assert(tv[i - 1] == view_func(*ctx.funcs@[i - 1]));
            assert(sub.last() == view_func(*f));
        }
        if f.ident == *name {
            proof {
                assert(lookup(sub, name@) == Some(view_func(*f)));
            }
            return Some(f);
        }
        proof {
            assert(sub.last().ident != name@);
            assert(sub.drop_last() =~= tv.subrange(0, i - 1));
        }
        i -= 1;
    }
    proof {
        assert(tv.subrange(0, 0) =~= Seq::<FuncV>::empty());
    }
    None
}

/// Run one call: resolve the name against the function table, fall back
/// to the executor with the piped lines appended after the literal
/// arguments.  An empty call is a no-op with an empty result.
fn eval_call_x<'a, E: Executor>(
    fuel: u64,
    call: &Vec<String>,
    extra: Option<Vec<String>>,
    ctx: &NodeEvalCtx<'a>,
    ex: &E,
) -> (r: Option<Vec<String>>)
    ensures
        lines_match(
            r,
            eval_call_s(fuel as nat, view_strings(call@), opt_lines(extra), ctx.funcs_v(), ex),
        ),
    decreases fuel, 1int,
{
    let ghost cv = view_strings(call@);
    if call.len() == 0 {
        let r: Vec<String> = Vec::new();
        proof {
            assert(view_strings(r@) =~= Seq::<Seq<char>>::empty());
        }
        return Some(r);
    }
    let name: &String = &call[0];
    proof {
        assert(cv[0] == name@);
    }
    match lookup_func(ctx, name) {
        Some(f) => {
            if fuel == 0 {
                return None;
            }
            let sub_ctx = copy_ctx(ctx);
            eval_scope_x(fuel - 1, &f.body, sub_ctx, ex)
        },
        None => {
            let mut args: Vec<String> = Vec::new();
            let mut i: usize = 1;
            while i < call.len()
                invariant
                    1 <= i <= call.len(),
                    args@.len() == i - 1,
                    view_strings(args@) == view_strings(call@).subrange(1, i as int),
                decreases call.len() - i,
            {
                let s = call[i].clone();
                args.push(s);
                proof {
                    assert forall|k: int|
                        0 <= k < i implies view_strings(args@)[k] == view_strings(call@).subrange(
                        1,
                        i + 1 as int,
                    )[k] by {
                        if k < i - 1 {
                            assert(view_strings(call@).subrange(1, i as int)[k] == call@[k + 1]@);
                        } else {
                            assert(args@[k] == s);
                        }
                    }
                    assert(view_strings(args@) =~= view_strings(call@).subrange(1, i + 1 as int));
                }
                i += 1;
            }
            proof {
                assert(view_strings(args@) =~= cv.drop_first());
            }
            match extra {
                Some(mut ev) => {
                    let ghost args0 = args@;
                    let ghost ev0 = ev@;
                    args.append(&mut ev);
                    proof {
                        lemma_view_strings_concat(args0, ev0);
                        assert(view_strings(args@) == cv.drop_first() + view_strings(ev0));
                    }
                    let out = ex.invoke(name, &args, true);
                    Some(out)
                },
                None => {
                    let out = ex.invoke(name, &args, false);
                    proof {
                        assert(cv.drop_first() + Seq::<Seq<char>>::empty() =~= cv.drop_first());
                    }
                    Some(out)
                },
            }
        },
    }
}

/// Run a chain left to right, resolving each pending operator against
/// the buffered previous result, and flush the final buffer.
fn eval_chain_x<'a, E: Executor>(
    fuel: u64,
    chain: &Vec<ChainElem>,
    ctx: &NodeEvalCtx<'a>,
    ex: &E,
) -> (r: Option<Vec<String>>)
    ensures
        lines_match(
            r,
            eval_chain_s(
                fuel as nat,
                view_chain(chain@),
                ctx.funcs_v(),
                ex,
                Operator::And,
                None,
            ),
        ),
    decreases fuel, 2int,
{
    let ghost cv = view_chain(chain@);
    let ghost fv = ctx.funcs_v();
    let ghost full = eval_chain_s(fuel as nat, cv, fv, ex, Operator::And, None);
    let mut output: Vec<String> = Vec::new();
    let mut pending: Operator = Operator::And;
    let mut last: Option<Vec<String>> = None;
    let mut k: usize = 0;
    proof {
        assert(cv.subrange(0, cv.len() as int) =~= cv);
        assert(view_strings(output@) =~= Seq::<Seq<char>>::empty());
    }
    while k < chain.len()
        invariant
            k <= chain.len(),
            cv == view_chain(chain@),
            fv == ctx.funcs_v(),
            cv.len() == chain@.len(),
            full == eval_chain_s(fuel as nat, cv, fv, ex, Operator::And, None),
            full == with_prefix(
                view_strings(output@),
                eval_chain_s(
                    fuel as nat,
                    cv.subrange(k as int, cv.len() as int),
                    fv,
                    ex,
                    pending,
                    opt_lines(last),
                ),
            ),
        decreases chain.len() - k,
    {
        let ghost rest = cv.subrange(k as int, cv.len() as int);
        proof {
            assert(rest[0] == cv[k as int]);
            assert(cv[k as int] == view_elem(chain@[k as int]));
            assert(rest.drop_first() =~= cv.subrange(k + 1 as int, cv.len() as int));
        }
        let elem: &ChainElem = &chain[k];
        match elem {
            ChainElem::Op(o) => {
                pending = *o;
            },
            ChainElem::Call(c) => {
                let ghost pend0 = pending;
                let ghost prev_v = opt_lines(last);
                let ghost out0 = output@;
                let prev = last;
                let mut extra: Option<Vec<String>> = None;
                match pending {
                    Operator::Redir => {
                        proof {
                            assert(view_strings(output@) =~= view_strings(out0) + flush_of(
                                pend0,
                                prev_v,
                            ));
                            assert(opt_lines(extra) == pipe_of(pend0, prev_v));
                        }
                    },
                    Operator::Pipe => {
                        extra = prev;
                        proof {
                            assert(view_strings(output@) =~= view_strings(out0) + flush_of(
                                pend0,
                                prev_v,
                            ));
                            assert(opt_lines(extra) == pipe_of(pend0, prev_v));
                        }
                    },
                    Operator::And => {
                        match prev {
                            Some(mut l) => {
                                let ghost l0 = l@;
                                output.append(&mut l);
                                proof {
                                    lemma_view_strings_concat(out0, l0);
                                    assert(view_strings(output@) == view_strings(out0) + flush_of(
                                        pend0,
                                        prev_v,
                                    ));
                                }
                            },
                            None => {
                                proof {
                                    assert(view_strings(output@) =~= view_strings(out0) + flush_of(
                                        pend0,
                                        prev_v,
                                    ));
                                }
                            },
                        }
                        proof {
                            assert(opt_lines(extra) == pipe_of(pend0, prev_v));
                        }
                    },
                }
                let res = eval_call_x(fuel, c, extra, ctx, ex);
                match res {
                    None => {
                        return None;
                    },
                    Some(v) => {
                        proof {
                            let y = eval_chain_s(
                                fuel as nat,
                                rest.drop_first(),
                                fv,
                                ex,
                                Operator::And,
                                Some(view_strings(v@)),
                            );
                            if y is Some {
                                assert((view_strings(out0) + flush_of(pend0, prev_v)) + y->0
                                    =~= view_strings(out0) + (flush_of(pend0, prev_v) + y->0));
                            }
                        }
                        last = Some(v);
                        pending = Operator::And;
                    },
                }
            },
        }
        k += 1;
    }
    proof {
        assert(cv.subrange(k as int, cv.len() as int) =~= Seq::<ChainElemV>::empty());
    }
    match last {
        Some(mut l) => {
            let ghost out0 = output@;
            let ghost l0 = l@;
            output.append(&mut l);
            proof {
                lemma_view_strings_concat(out0, l0);
            }
        },
        None => {
            proof {
                assert(view_strings(output@) + Seq::<Seq<char>>::empty() =~= view_strings(
                    output@,
                ));
            }
        },
    }
    Some(output)
}

/// Run a scope's statements in order: definitions extend the table,
/// chains contribute their output.
fn eval_scope_x<'a, E: Executor>(
    fuel: u64,
    scope: &'a Vec<Expr>,
    ctx: NodeEvalCtx<'a>,
    ex: &E,
) -> (r: Option<Vec<String>>)
    ensures
        lines_match(r, eval_scope_s(fuel as nat, view_scope(*scope), ctx.funcs_v(), ex)),
    decreases fuel, 3int,
{
    let ghost sv = view_scope(*scope);
    let ghost fv0 = ctx.funcs_v();
    let ghost full = eval_scope_s(fuel as nat, sv, fv0, ex);
    let mut c = ctx;
    let mut output: Vec<String> = Vec::new();
    let mut k: usize = 0;
    proof {
        assert(sv.subrange(0, sv.len() as int) =~= sv);
        assert(view_strings(output@) =~= Seq::<Seq<char>>::empty());
    }
    while k < scope.len()
        invariant
            k <= scope.len(),
            sv == view_scope(*scope),
            sv.len() == scope@.len(),
            fv0 == ctx.funcs_v(),
            full == eval_scope_s(fuel as nat, sv, fv0, ex),
            full == with_prefix(
                view_strings(output@),
                eval_scope_s(
                    fuel as nat,
                    sv.subrange(k as int, sv.len() as int),
                    c.funcs_v(),
                    ex,
                ),
            ),
        decreases scope.len() - k,
    {
        let ghost rest = sv.subrange(k as int, sv.len() as int);
        proof {
            assert(rest[0] == sv[k as int]);
            assert(sv[k as int] == view_expr(scope@[k as int]));
            assert(rest.drop_first() =~= sv.subrange(k + 1 as int, sv.len() as int));
        }
        let e: &Expr = &scope[k];
        match e {
            Expr::Func(f) => {
                let ghost t0 = c.funcs@;
                c.funcs.push(f);
                proof {
                    assert forall|j: int|
                        0 <= j < t0.len() + 1 implies table_view(c.funcs@)[j] == table_view(
                        t0,
                    ).push(view_func(*f))[j] by {
                        if j < t0.len() {
                            assert(c.funcs@[j] == t0[j]);
                        }
                    }
                    assert(table_view(c.funcs@) =~= table_view(t0).push(view_func(*f)));
                }
            },
            Expr::Chain(ch) => {
                let res = eval_chain_x(fuel, ch, &c, ex);
                match res {
                    None => {
                        proof {
                            assert(view_expr(scope@[k as int]) == ExprV::Chain(
                                view_chain(ch@),
                            ));
                            assert(eval_scope_s(fuel as nat, rest, c.funcs_v(), ex) is None);
                        }
                        return None;
                    },
                    Some(mut v) => {
                        let ghost out0 = output@;
                        let ghost v0 = v@;
                        output.append(&mut v);
                        proof {
                            lemma_view_strings_concat(out0, v0);
                            let y = eval_scope_s(
                                fuel as nat,
                                rest.drop_first(),
                                c.funcs_v(),
                                ex,
                            );
                            if y is Some {
                                assert((view_strings(out0) + view_strings(v0)) + y->0
                                    =~= view_strings(out0) + (view_strings(v0) + y->0));
                            }
                        }
                    },
                }
            },
        }
        k += 1;
    }
    proof {
        assert(sv.subrange(k as int, sv.len() as int) =~= Seq::<ExprV>::empty());
        assert(view_strings(output@) + Seq::<Seq<char>>::empty() =~= view_strings(output@));
    }
    Some(output)
}

/// Evaluate a parsed scope against the host's executor, starting from
/// an empty function table.  Returns the program's accumulated output
/// lines, or `None` when user-defined function calls nest more than
/// [`EVAL_FUEL`] deep (the language permits a function to call itself,
/// so an evaluation need not otherwise terminate).
pub fn eval_scope<E: Executor>(scope: &Scope, executor: &E) -> (r: Option<Vec<String>>)
    ensures
        lines_match(
            r,
            eval_scope_s(EVAL_FUEL as nat, view_scope(*scope), Seq::empty(), executor),
        ),
{
    let ctx = NodeEvalCtx::new();
    eval_scope_x(EVAL_FUEL, scope, ctx, executor)
}

/// Why an evaluation run failed.
#[derive(Clone, Copy, Debug)]
pub enum BashError {
    /// The source text does not match the grammar; evaluation never began.
    Syntax(SyntaxError),
    /// User-defined function calls nested more than [`EVAL_FUEL`] deep.
    RecursionLimit,
}

/// Parse `input` and evaluate the resulting tree against `executor`,
/// starting from an empty function table: nothing more than [`parse`]
/// followed by [`eval_scope`].  On success the output is the evaluation,
/// under the rules of [`eval_scope_s`], of exactly the scope the text
/// parses to; a syntax error comes back exactly when the text does not
/// match the grammar, and the recursion-limit error exactly when the
/// text parses but its evaluation exhausts [`EVAL_FUEL`].
pub fn eval<E: Executor>(input: &str, executor: &E) -> (r: Result<Vec<String>, BashError>)
    ensures
        r matches Ok(out) ==> (spec_parse(input@) matches Some(sc) && wf_scope(sc)
            && eval_scope_s(EVAL_FUEL as nat, sc, Seq::empty(), executor) == Some(
            view_strings(out@),
        )),
        r matches Err(e) ==> (e matches BashError::RecursionLimit ==> (spec_parse(input@)
            matches Some(sc) && eval_scope_s(EVAL_FUEL as nat, sc, Seq::empty(), executor)
            is None)),
        r matches Err(e) ==> (e matches BashError::Syntax(se) ==> spec_parse(input@) is None
            && se.at <= input@.len()),
        r is Err <==> (spec_parse(input@) is None || eval_scope_s(
            EVAL_FUEL as nat,
            spec_parse(input@)->Some_0,
            Seq::empty(),
            executor,
        ) is None),
{
    match parse(input) {
        Err(e) => Err(BashError::Syntax(e)),
        Ok(scope) => {
            match eval_scope(&scope, executor) {
                Some(out) => Ok(out),
                None => Err(BashError::RecursionLimit),
            }
        },
    }
}

} // verus!
