//! The command language's tree: scopes, chains, calls and operators,
//! together with their mathematical models and well-formedness.

use vstd::prelude::*;

verus! {

/// A single command invocation: token 0 is the command name, the
/// remaining tokens are literal argument strings.
pub type Call = Vec<String>;

/// A sequence of calls joined by operators, evaluated left to right.
pub type Chain = Vec<ChainElem>;

/// A lexical block in textual order: the whole program, or a function body.
pub type Scope = Vec<Expr>;

/// Governs how the previous call's result relates to the next call.
#[derive(Clone, Copy, Debug)]
pub enum Operator {
    /// The previous result is discarded entirely.
    Redir,
    /// The previous result is fed to the next call as extra trailing arguments.
    Pipe,
    /// The previous result is flushed to the output before the next call runs.
    And,
}

/// One element of a chain: a call, or an operator between calls.
#[derive(Clone, Debug)]
pub enum ChainElem {
    Call(Call),
    Op(Operator),
}

/// A named, reusable block: once registered, invoking `ident` as a
/// command name executes `body` instead of the external executor.
pub struct Func {
    pub ident: String,
    pub body: Scope,
}

/// One statement of a scope: a function definition or a chain.
pub enum Expr {
    Func(Func),
    Chain(Chain),
}

/// Model of a call: the sequence of its tokens, each a sequence of characters.
pub type CallV = Seq<Seq<char>>;

/// Model of a vector of strings: the sequence of their character sequences.
pub open spec fn view_strings(v: Seq<String>) -> Seq<Seq<char>> {
    v.map(|i: int, s: String| s@)
}

/// Model of a chain element.
pub enum ChainElemV {
    Call(CallV),
    Op(Operator),
}

/// Model of a function definition.
pub struct FuncV {
    pub ident: Seq<char>,
    pub body: Seq<ExprV>,
}

/// Model of a statement.
pub enum ExprV {
    Func(FuncV),
    Chain(Seq<ChainElemV>),
}

/// Model of a chain element: tokens of a call, or the operator itself.
pub open spec fn view_elem(e: ChainElem) -> ChainElemV {
    match e {
        ChainElem::Call(c) => ChainElemV::Call(view_strings(c@)),
        ChainElem::Op(o) => ChainElemV::Op(o),
    }
}

/// Model of a chain: its elements' models, in order.
pub open spec fn view_chain(c: Seq<ChainElem>) -> Seq<ChainElemV> {
    c.map(|i: int, e: ChainElem| view_elem(e))
}

/// Model of a statement.
pub open spec fn view_expr(e: Expr) -> ExprV
    decreases e, 1int,
{
    match e {
        Expr::Func(f) => ExprV::Func(view_func(f)),
        Expr::Chain(c) => ExprV::Chain(view_chain(c@)),
    }
}

/// Model of a function definition.
pub open spec fn view_func(f: Func) -> FuncV
    decreases f, 0int,
{
    FuncV { ident: f.ident@, body: view_scope(f.body) }
}

/// Model of a scope: its statements' models, in order.
pub open spec fn view_scope(s: Scope) -> Seq<ExprV>
    decreases s, 2int,
{
    Seq::new(
        s@.len(),
        |i: int|
            if 0 <= i < s@.len() {
                view_expr(s@[i])
            } else {
                ExprV::Chain(Seq::empty())
            },
    )
}

/// The model of a concatenation of string vectors is the concatenation
/// of their models.
pub proof fn lemma_view_strings_concat(a: Seq<String>, b: Seq<String>)
    ensures
        view_strings(a + b) == view_strings(a) + view_strings(b),
{
    assert forall|k: int|
        0 <= k < (a + b).len() implies view_strings(a + b)[k] == (view_strings(a) + view_strings(
        b,
    ))[k] by {
        if k < a.len() {
            assert((a + b)[k] == a[k]);
        } else {
            assert((a + b)[k] == b[k - a.len()]);
        }
    }
    assert(view_strings(a + b) =~= view_strings(a) + view_strings(b));
}

/// The model of a pushed string vector is the model with the string's
/// characters pushed.
pub proof fn lemma_view_strings_push(a: Seq<String>, x: String)
    ensures
        view_strings(a.push(x)) == view_strings(a).push(x@),
{
    assert forall|k: int|
        0 <= k < a.len() + 1 implies view_strings(a.push(x))[k] == view_strings(a).push(x@)[k] by {
        if k < a.len() {
            assert(a.push(x)[k] == a[k]);
        } else {
            assert(a.push(x)[k] == x);
        }
    }
    assert(view_strings(a.push(x)) =~= view_strings(a).push(x@));
}

/// The model of a pushed chain is the model with the element's model pushed.
pub proof fn lemma_view_chain_push(a: Seq<ChainElem>, x: ChainElem)
    ensures
        view_chain(a.push(x)) == view_chain(a).push(view_elem(x)),
{
    assert forall|k: int|
        0 <= k < a.len() + 1 implies view_chain(a.push(x))[k] == view_chain(a).push(
        view_elem(x),
    )[k] by {
        if k < a.len() {
            assert(a.push(x)[k] == a[k]);
        } else {
            assert(a.push(x)[k] == x);
        }
    }
    assert(view_chain(a.push(x)) =~= view_chain(a).push(view_elem(x)));
}

/// The model of a scope with one statement pushed is the model with the
/// statement's model pushed.
pub proof fn lemma_view_scope_push(pre: Scope, post: Scope, e: Expr)
    requires
        post@ == pre@.push(e),
    ensures
        view_scope(post) == view_scope(pre).push(view_expr(e)),
{
    assert forall|k: int|
        0 <= k < pre@.len() + 1 implies view_scope(post)[k] == view_scope(pre).push(
        view_expr(e),
    )[k] by {
        assert(view_scope(post)[k] == view_expr(post@[k]));
        if k < pre@.len() {
            assert(post@[k] == pre@[k]);
            assert(view_scope(pre)[k] == view_expr(pre@[k]));
        } else {
            assert(post@[k] == e);
        }
    }
    assert(view_scope(post) =~= view_scope(pre).push(view_expr(e)));
}

/// A call is well formed when it has at least its command-name token.
pub open spec fn wf_call(c: CallV) -> bool {
    c.len() >= 1
}

/// A chain is well formed when it is non-empty, an operator never
/// stands first or last, and every call in it is well formed.
pub open spec fn wf_chain(c: Seq<ChainElemV>) -> bool {
    &&& c.len() >= 1
    &&& c[0] is Call
    &&& c[c.len() - 1] is Call
    &&& forall|i: int|
        0 <= i < c.len() ==> (#[trigger] c[i] matches ChainElemV::Call(cv) ==> wf_call(cv))
}

/// A statement is well formed when its chain is, or its body's scope is.
pub open spec fn wf_expr(e: ExprV) -> bool
    decreases e,
{
    match e {
        ExprV::Func(f) => wf_scope(f.body),
        ExprV::Chain(c) => wf_chain(c),
    }
}

/// A scope is well formed when each of its statements is.
pub open spec fn wf_scope(s: Seq<ExprV>) -> bool
    decreases s,
{
    forall|i: int| 0 <= i < s.len() ==> wf_expr(#[trigger] s[i])
}

} // verus!
