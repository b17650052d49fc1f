//! Laws the evaluator obeys, stated over the specification functions of
//! [`crate::semantics`] and proved once and for all.  Together with the
//! contracts of [`crate::evaluator`], they hold of every run.

use vstd::prelude::*;

use crate::ast::{wf_call, CallV, ChainElemV, ExprV, FuncV, Operator};
use crate::semantics::{
    eval_chain_s, eval_scope_s, flush_of, lookup, Executor, Lines,
};

verus! {

/// The tokens of a call element; an operator element has none.
pub open spec fn call_of(e: ChainElemV) -> CallV {
    match e {
        ChainElemV::Call(c) => c,
        ChainElemV::Op(_) => Seq::empty(),
    }
}

/// What the executor returns for one call with no piped input.
pub open spec fn plain_result<E: Executor>(c: CallV, ex: &E) -> Lines {
    ex.spec_invoke(c[0], c.drop_first(), false)
}

/// The concatenation, in order, of the executor's result for each call.
pub open spec fn plain_outputs<E: Executor>(elems: Seq<ChainElemV>, ex: &E) -> Lines
    decreases elems.len(),
{
    if elems.len() == 0 {
        Seq::empty()
    } else {
        plain_result(call_of(elems[0]), ex) + plain_outputs(elems.drop_first(), ex)
    }
}

/// Every element is a call with at least its name token, and no name is
/// registered in the function table.
pub open spec fn all_external_calls(elems: Seq<ChainElemV>, funcs: Seq<FuncV>) -> bool {
    forall|i: int|
        0 <= i < elems.len() ==> {
            &&& #[trigger] elems[i] is Call
            &&& wf_call(call_of(elems[i]))
            &&& lookup(funcs, call_of(elems[i])[0]) is None
        }
}

proof fn lemma_plain_chain<E: Executor>(
    fuel: nat,
    elems: Seq<ChainElemV>,
    funcs: Seq<FuncV>,
    ex: &E,
    prev: Option<Lines>,
)
    requires
        all_external_calls(elems, funcs),
    ensures
        eval_chain_s(fuel, elems, funcs, ex, Operator::And, prev) == Some(
            flush_of(Operator::And, prev) + plain_outputs(elems, ex),
        ),
    decreases elems.len(),
{
    reveal_with_fuel(eval_chain_s, 3);
    reveal_with_fuel(crate::semantics::eval_call_s, 2);
    if elems.len() == 0 {
        assert(flush_of(Operator::And, prev) + Seq::<Seq<char>>::empty() =~= flush_of(
            Operator::And,
            prev,
        ));
    } else {
        assert(elems[0] is Call && wf_call(call_of(elems[0])) && lookup(
            funcs,
            call_of(elems[0])[0],
        ) is None);
        let c = call_of(elems[0]);
        assert(c.drop_first() + Seq::<Seq<char>>::empty() =~= c.drop_first());
        let rest = elems.drop_first();
        assert forall|i: int|
            0 <= i < rest.len() implies #[trigger] rest[i] is Call && wf_call(call_of(rest[i]))
            && lookup(funcs, call_of(rest[i])[0]) is None by {
            assert(rest[i] == elems[i + 1]);
            assert(elems[i + 1] is Call && wf_call(call_of(elems[i + 1])) && lookup(
                funcs,
                call_of(elems[i + 1])[0],
            ) is None);
        }
        lemma_plain_chain(fuel, rest, funcs, ex, Some(plain_result(c, ex)));
    }
}

/// Sequencing: a chain of bare calls — no operators between them — none
/// of which names a defined function, outputs the concatenation, in
/// order, of each call's executor result, each invoked with its own
/// literal arguments and no piped input.
pub proof fn lemma_sequencing<E: Executor>(
    fuel: nat,
    elems: Seq<ChainElemV>,
    funcs: Seq<FuncV>,
    ex: &E,
)
    requires
        all_external_calls(elems, funcs),
    ensures
        eval_chain_s(fuel, elems, funcs, ex, Operator::And, None) == Some(
            plain_outputs(elems, ex),
        ),
{
    lemma_plain_chain(fuel, elems, funcs, ex, None);
    assert(Seq::<Seq<char>>::empty() + plain_outputs(elems, ex) =~= plain_outputs(elems, ex));
}

/// The chain of a chain statement; a definition statement has none.
pub open spec fn chain_of(e: ExprV) -> Seq<ChainElemV> {
    match e {
        ExprV::Chain(c) => c,
        ExprV::Func(_) => Seq::empty(),
    }
}

/// Every statement is a chain of bare external calls.
pub open spec fn all_plain_chains(scope: Seq<ExprV>, funcs: Seq<FuncV>) -> bool {
    forall|i: int|
        0 <= i < scope.len() ==> {
            &&& #[trigger] scope[i] is Chain
            &&& all_external_calls(chain_of(scope[i]), funcs)
        }
}

/// The concatenation, in order, of each statement's calls' results.
pub open spec fn scope_outputs<E: Executor>(scope: Seq<ExprV>, ex: &E) -> Lines
    decreases scope.len(),
{
    if scope.len() == 0 {
        Seq::empty()
    } else {
        plain_outputs(chain_of(scope[0]), ex) + scope_outputs(scope.drop_first(), ex)
    }
}

/// Sequencing across a program: when every statement is a chain of bare
/// calls — no operators, no definitions, no call naming a defined
/// function — the program's output is the concatenation, in order, of
/// each call's executor result.
pub proof fn lemma_scope_sequencing<E: Executor>(
    fuel: nat,
    scope: Seq<ExprV>,
    funcs: Seq<FuncV>,
    ex: &E,
)
    requires
        all_plain_chains(scope, funcs),
    ensures
        eval_scope_s(fuel, scope, funcs, ex) == Some(scope_outputs(scope, ex)),
    decreases scope.len(),
{
    if scope.len() == 0 {
    } else {
        assert(scope[0] is Chain && all_external_calls(chain_of(scope[0]), funcs));
        lemma_sequencing(fuel, chain_of(scope[0]), funcs, ex);
        let rest = scope.drop_first();
        assert forall|i: int|
            0 <= i < rest.len() implies #[trigger] rest[i] is Chain && all_external_calls(
            chain_of(rest[i]),
            funcs,
        ) by {
            assert(rest[i] == scope[i + 1]);
            assert(scope[i + 1] is Chain && all_external_calls(chain_of(scope[i + 1]), funcs));
        }
        lemma_scope_sequencing(fuel, rest, funcs, ex);
    }
}

/// Pipe: in `a | b`, the second call runs with the piped-input flag set
/// and with the first call's result lines appended after its own literal
/// arguments, and the chain's output is exactly the second call's
/// result — the first call's lines never reach the output directly.
pub proof fn lemma_pipe<E: Executor>(fuel: nat, a: CallV, b: CallV, funcs: Seq<FuncV>, ex: &E)
    requires
        wf_call(a),
        wf_call(b),
        lookup(funcs, a[0]) is None,
        lookup(funcs, b[0]) is None,
    ensures
        eval_chain_s(
            fuel,
            seq![ChainElemV::Call(a), ChainElemV::Op(Operator::Pipe), ChainElemV::Call(b)],
            funcs,
            ex,
            Operator::And,
            None,
        ) == Some(
            ex.spec_invoke(b[0], b.drop_first() + ex.spec_invoke(a[0], a.drop_first(), false), true),
        ),
{
    reveal_with_fuel(eval_chain_s, 6);
    reveal_with_fuel(crate::semantics::eval_call_s, 2);
    let s0 = seq![ChainElemV::Call(a), ChainElemV::Op(Operator::Pipe), ChainElemV::Call(b)];
    let s1 = s0.drop_first();
    let s2 = s1.drop_first();
    let s3 = s2.drop_first();
    assert(s0[0] == ChainElemV::Call(a));
    assert(s1[0] == s0[1]);
    assert(s2[0] == s0[2]);
    assert(s3.len() == 0);
    let a_out = ex.spec_invoke(a[0], a.drop_first(), false);
    assert(a.drop_first() + Seq::<Seq<char>>::empty() =~= a.drop_first());
    let b_out = ex.spec_invoke(b[0], b.drop_first() + a_out, true);
    assert(eval_chain_s(fuel, s3, funcs, ex, Operator::And, Some(b_out)) == Some(b_out));
    assert(Seq::<Seq<char>>::empty() + b_out =~= b_out);
    assert(eval_chain_s(fuel, s2, funcs, ex, Operator::Pipe, Some(a_out)) == Some(b_out));
    assert(eval_chain_s(fuel, s1, funcs, ex, Operator::And, Some(a_out)) == Some(b_out));
    assert(eval_chain_s(fuel, s0, funcs, ex, Operator::And, None) == Some(b_out));
}

/// And: in `a && b`, both calls' results appear in the final output, in
/// that order, each exactly as the executor returned it, and each call
/// runs with its own literal arguments and no piped input.
pub proof fn lemma_and<E: Executor>(fuel: nat, a: CallV, b: CallV, funcs: Seq<FuncV>, ex: &E)
    requires
        wf_call(a),
        wf_call(b),
        lookup(funcs, a[0]) is None,
        lookup(funcs, b[0]) is None,
    ensures
        eval_chain_s(
            fuel,
            seq![ChainElemV::Call(a), ChainElemV::Op(Operator::And), ChainElemV::Call(b)],
            funcs,
            ex,
            Operator::And,
            None,
        ) == Some(
            ex.spec_invoke(a[0], a.drop_first(), false) + ex.spec_invoke(
                b[0],
                b.drop_first(),
                false,
            ),
        ),
{
    reveal_with_fuel(eval_chain_s, 6);
    reveal_with_fuel(crate::semantics::eval_call_s, 2);
    let s0 = seq![ChainElemV::Call(a), ChainElemV::Op(Operator::And), ChainElemV::Call(b)];
    let s1 = s0.drop_first();
    let s2 = s1.drop_first();
    let s3 = s2.drop_first();
    assert(s0[0] == ChainElemV::Call(a));
    assert(s1[0] == s0[1]);
    assert(s2[0] == s0[2]);
    assert(s3.len() == 0);
    let a_out = ex.spec_invoke(a[0], a.drop_first(), false);
    let b_out = ex.spec_invoke(b[0], b.drop_first(), false);
    assert(a.drop_first() + Seq::<Seq<char>>::empty() =~= a.drop_first());
    assert(b.drop_first() + Seq::<Seq<char>>::empty() =~= b.drop_first());
    assert(eval_chain_s(fuel, s3, funcs, ex, Operator::And, Some(b_out)) == Some(b_out));
    assert(eval_chain_s(fuel, s2, funcs, ex, Operator::And, Some(a_out)) == Some(a_out + b_out));
    assert(eval_chain_s(fuel, s1, funcs, ex, Operator::And, Some(a_out)) == Some(a_out + b_out));
    assert(Seq::<Seq<char>>::empty() + (a_out + b_out) =~= a_out + b_out);
    assert(eval_chain_s(fuel, s0, funcs, ex, Operator::And, None) == Some(a_out + b_out));
}

/// Redir: in `a > b`, the first call's result is discarded — it never
/// appears in the output and is not piped onward — and the second call
/// runs with the piped-input flag unset; the chain's output is exactly
/// the second call's result.
pub proof fn lemma_redir<E: Executor>(fuel: nat, a: CallV, b: CallV, funcs: Seq<FuncV>, ex: &E)
    requires
        wf_call(a),
        wf_call(b),
        lookup(funcs, a[0]) is None,
        lookup(funcs, b[0]) is None,
    ensures
        eval_chain_s(
            fuel,
            seq![ChainElemV::Call(a), ChainElemV::Op(Operator::Redir), ChainElemV::Call(b)],
            funcs,
            ex,
            Operator::And,
            None,
        ) == Some(ex.spec_invoke(b[0], b.drop_first(), false)),
{
    reveal_with_fuel(eval_chain_s, 6);
    reveal_with_fuel(crate::semantics::eval_call_s, 2);
    let s0 = seq![ChainElemV::Call(a), ChainElemV::Op(Operator::Redir), ChainElemV::Call(b)];
    let s1 = s0.drop_first();
    let s2 = s1.drop_first();
    let s3 = s2.drop_first();
    assert(s0[0] == ChainElemV::Call(a));
    assert(s1[0] == s0[1]);
    assert(s2[0] == s0[2]);
    assert(s3.len() == 0);
    let a_out = ex.spec_invoke(a[0], a.drop_first(), false);
    let b_out = ex.spec_invoke(b[0], b.drop_first(), false);
    assert(a.drop_first() + Seq::<Seq<char>>::empty() =~= a.drop_first());
    assert(b.drop_first() + Seq::<Seq<char>>::empty() =~= b.drop_first());
    assert(eval_chain_s(fuel, s3, funcs, ex, Operator::And, Some(b_out)) == Some(b_out));
    assert(Seq::<Seq<char>>::empty() + b_out =~= b_out);
    assert(eval_chain_s(fuel, s2, funcs, ex, Operator::Redir, Some(a_out)) == Some(b_out));
    assert(eval_chain_s(fuel, s1, funcs, ex, Operator::And, Some(a_out)) == Some(b_out));
    assert(eval_chain_s(fuel, s0, funcs, ex, Operator::And, None) == Some(b_out));
}

/// Function shadowing: a call whose name is registered in the function
/// table evaluates that function's body — the chain's result is the
/// body's evaluation, whatever the executor would have returned for the
/// same name.
pub proof fn lemma_function_shadowing<E: Executor>(
    fuel: nat,
    c: CallV,
    f: FuncV,
    funcs: Seq<FuncV>,
    ex: &E,
)
    requires
        wf_call(c),
        fuel >= 1,
        lookup(funcs, c[0]) == Some(f),
    ensures
        eval_chain_s(fuel, seq![ChainElemV::Call(c)], funcs, ex, Operator::And, None)
            == eval_scope_s((fuel - 1) as nat, f.body, funcs, ex),
{
    reveal_with_fuel(eval_chain_s, 3);
    reveal_with_fuel(crate::semantics::eval_call_s, 2);
    let s0 = seq![ChainElemV::Call(c)];
    let s1 = s0.drop_first();
    assert(s0[0] == ChainElemV::Call(c));
    assert(s1.len() == 0);
    let y = eval_scope_s((fuel - 1) as nat, f.body, funcs, ex);
    if y is Some {
        assert(eval_chain_s(fuel, s1, funcs, ex, Operator::And, Some(y->0)) == Some(y->0));
        assert(Seq::<Seq<char>>::empty() + y->0 =~= y->0);
    }
}

/// The top-level function definitions of a scope, in textual order —
/// definitions made inside function bodies or chains are not among them.
pub open spec fn top_defs(s: Seq<ExprV>) -> Seq<FuncV>
    decreases s.len(),
{
    if s.len() == 0 {
        Seq::empty()
    } else {
        (match s[0] {
            ExprV::Func(f) => seq![f],
            ExprV::Chain(_) => Seq::empty(),
        }) + top_defs(s.drop_first())
    }
}

/// Scoping: splitting a scope anywhere, the later part runs under the
/// table extended by exactly the earlier part's top-level definitions.
/// A definition made inside a function's body — however often that
/// function was evaluated along the way — is not among them, so it is
/// not callable from later chains; and a definition is visible to every
/// chain after it in its own scope.
pub proof fn lemma_scope_locality<E: Executor>(
    fuel: nat,
    s1: Seq<ExprV>,
    s2: Seq<ExprV>,
    funcs: Seq<FuncV>,
    ex: &E,
)
    ensures
        eval_scope_s(fuel, s1 + s2, funcs, ex) == (match eval_scope_s(fuel, s1, funcs, ex) {
            None => None,
            Some(o1) => match eval_scope_s(fuel, s2, funcs + top_defs(s1), ex) {
                None => None::<Lines>,
                Some(o2) => Some(o1 + o2),
            },
        }),
    decreases s1.len(),
{
    if s1.len() == 0 {
        assert(s1 + s2 =~= s2);
        assert(funcs + top_defs(s1) =~= funcs);
        let y = eval_scope_s(fuel, s2, funcs, ex);
        if y is Some {
            assert(Seq::<Seq<char>>::empty() + y->0 =~= y->0);
        }
    } else {
        let rest1 = s1.drop_first();
        assert((s1 + s2)[0] == s1[0]);
        assert((s1 + s2).drop_first() =~= rest1 + s2);
        match s1[0] {
            ExprV::Func(f) => {
                lemma_scope_locality(fuel, rest1, s2, funcs.push(f), ex);
                assert(funcs.push(f) + top_defs(rest1) =~= funcs + top_defs(s1));
            },
            ExprV::Chain(c) => {
                lemma_scope_locality(fuel, rest1, s2, funcs, ex);
                assert(Seq::<FuncV>::empty() + top_defs(rest1) =~= top_defs(rest1));
                assert(funcs + top_defs(s1) == funcs + top_defs(rest1));
                let ch = eval_chain_s(fuel, c, funcs, ex, Operator::And, None);
                let y1 = eval_scope_s(fuel, rest1, funcs, ex);
                let y2 = eval_scope_s(fuel, s2, funcs + top_defs(rest1), ex);
                if ch is Some && y1 is Some && y2 is Some {
                    assert(ch->0 + (y1->0 + y2->0) =~= (ch->0 + y1->0) + y2->0);
                }
            },
        }
    }
}

/// Idempotence: the evaluation of a scope is a mathematical function of
/// the tree, the table and the executor's model, so evaluating the same
/// parsed scope twice — with an executor whose result depends only on
/// the name, the arguments and the piped-input flag — yields identical
/// output sequences both times.
pub proof fn lemma_idempotent<E: Executor>(
    fuel: nat,
    scope: Seq<ExprV>,
    funcs: Seq<FuncV>,
    ex: &E,
    o1: Lines,
    o2: Lines,
)
    requires
        eval_scope_s(fuel, scope, funcs, ex) == Some(o1),
        eval_scope_s(fuel, scope, funcs, ex) == Some(o2),
    ensures
        o1 == o2,
{
}

} // verus!

