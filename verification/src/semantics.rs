//! The meaning of a parsed tree: specification functions that map a
//! scope, a function table and an executor model to the program's
//! output lines, plus the executor capability itself.

use vstd::prelude::*;

use crate::ast::{view_strings, CallV, ChainElemV, ExprV, FuncV, Operator};

verus! {

/// Output lines, as mathematical values.
pub type Lines = Seq<Seq<char>>;

/// Host-supplied capability that performs the real effect of a resolved
/// external command.  `spec_invoke` is the executor's model: the lines
/// it returns as a function of the command name, the argument list and
/// the piped-input flag; `invoke` must return exactly those lines.
pub trait Executor {
    /// The executor's model: output lines for a given invocation.
    spec fn spec_invoke(&self, name: Seq<char>, args: Lines, piped: bool) -> Lines;

    /// Produce the command's output lines.
    fn invoke(&self, name: &String, args: &Vec<String>, piped: bool) -> (r: Vec<String>)
        ensures
            view_strings(r@) == self.spec_invoke(name@, view_strings(args@), piped),
    ;
}

/// The function table: definitions in the order they were made.  A
/// later definition with the same name overwrites an earlier one, so
/// lookup scans from the most recent entry backwards.
pub open spec fn lookup(funcs: Seq<FuncV>, name: Seq<char>) -> Option<FuncV>
    decreases funcs.len(),
{
    if funcs.len() == 0 {
        None
    } else if funcs.last().ident == name {
        Some(funcs.last())
    } else {
        lookup(funcs.drop_last(), name)
    }
}

/// Lines the pending operator flushes to the output before the next call runs:
/// the buffered result for `And`, nothing for `Pipe` and `Redir`.
pub open spec fn flush_of(pending: Operator, prev: Option<Lines>) -> Lines {
    match (pending, prev) {
        (Operator::And, Some(l)) => l,
        _ => Seq::empty(),
    }
}

/// Lines the pending operator feeds to the next call as extra trailing
/// arguments: the buffered result for `Pipe`, nothing otherwise.
pub open spec fn pipe_of(pending: Operator, prev: Option<Lines>) -> Option<Lines> {
    match (pending, prev) {
        (Operator::Pipe, Some(l)) => Some(l),
        _ => None,
    }
}

/// Result of one call.  An empty call is tolerated as a no-op with an
/// empty result.  A name registered in the function table runs that
/// function's body under a copy of the table (spending one unit of
/// recursion fuel); any other name is dispatched to the executor, with
/// the piped lines appended after the literal arguments.  `None` means
/// the recursion fuel ran out.
pub open spec fn eval_call_s<E: Executor>(
    fuel: nat,
    call: CallV,
    extra: Option<Lines>,
    funcs: Seq<FuncV>,
    ex: &E,
) -> Option<Lines>
    decreases fuel, 1int, 0int,
{
    if call.len() == 0 {
        Some(Seq::empty())
    } else {
        match lookup(funcs, call[0]) {
            Some(f) => {
                if fuel == 0 {
                    None
                } else {
                    eval_scope_s((fuel - 1) as nat, f.body, funcs, ex)
                }
            },
            None => {
                let args = call.drop_first() + match extra {
                    Some(l) => l,
                    None => Seq::empty(),
                };
                Some(ex.spec_invoke(call[0], args, extra is Some))
            },
        }
    }
}

/// Result of a chain's remaining elements, given the operator pending
/// for the next call and the previous call's buffered result.  An
/// operator element only replaces the pending operator; a call element
/// first resolves the pending operator (flushing or piping the buffer),
/// then runs, and its result becomes the new buffer.  When the elements
/// are exhausted the buffer is flushed.
pub open spec fn eval_chain_s<E: Executor>(
    fuel: nat,
    elems: Seq<ChainElemV>,
    funcs: Seq<FuncV>,
    ex: &E,
    pending: Operator,
    prev: Option<Lines>,
) -> Option<Lines>
    decreases fuel, 2int, elems.len(),
{
    if elems.len() == 0 {
        Some(
            match prev {
                Some(l) => l,
                None => Seq::empty(),
            },
        )
    } else {
        match elems[0] {
            ChainElemV::Op(o) => eval_chain_s(fuel, elems.drop_first(), funcs, ex, o, prev),
            ChainElemV::Call(c) => {
                match eval_call_s(fuel, c, pipe_of(pending, prev), funcs, ex) {
                    None => None,
                    Some(res) => {
                        match eval_chain_s(
                            fuel,
                            elems.drop_first(),
                            funcs,
                            ex,
                            Operator::And,
                            Some(res),
                        ) {
                            None => None,
                            Some(rest) => Some(flush_of(pending, prev) + rest),
                        }
                    },
                }
            },
        }
    }
}

/// Result of a scope: its statements in order.  A function definition
/// extends the table (visible only to the statements after it) and
/// produces no output; a chain is evaluated under the table as it
/// stands, with a pending `And` and an empty buffer, and its output is
/// appended to the scope's output.
pub open spec fn eval_scope_s<E: Executor>(
    fuel: nat,
    scope: Seq<ExprV>,
    funcs: Seq<FuncV>,
    ex: &E,
) -> Option<Lines>
    decreases fuel, 3int, scope.len(),
{
    if scope.len() == 0 {
        Some(Seq::empty())
    } else {
        match scope[0] {
            ExprV::Func(f) => eval_scope_s(fuel, scope.drop_first(), funcs.push(f), ex),
            ExprV::Chain(c) => {
                match eval_chain_s(fuel, c, funcs, ex, Operator::And, None) {
                    None => None,
                    Some(out) => {
                        match eval_scope_s(fuel, scope.drop_first(), funcs, ex) {
                            None => None,
                            Some(rest) => Some(out + rest),
                        }
                    },
                }
            },
        }
    }
}

/// Clone a vector of strings; the clone models the same lines.
pub fn clone_lines(v: &Vec<String>) -> (r: Vec<String>)
    ensures
        view_strings(r@) == view_strings(v@),
{
    let mut r: Vec<String> = Vec::new();
    let mut i: usize = 0;
    while i < v.len()
        invariant
            i <= v.len(),
            r@.len() == i as int,
            view_strings(r@) == view_strings(v@).subrange(0, i as int),
        decreases v.len() - i,
    {
        let s = v[i].clone();
        r.push(s);
        proof {
            assert forall|k: int| 0 <= k < i + 1 implies view_strings(r@)[k] == view_strings(
                v@,
            ).subrange(0, i + 1 as int)[k] by {
                if k < i {
                    assert(view_strings(v@).subrange(0, i as int)[k] == v@[k]@);
                } else {
                    assert(r@[k] == s);
                }
            }
            assert(view_strings(r@) =~= view_strings(v@).subrange(0, i + 1 as int));
        }
        i += 1;
    }
    proof {
        assert(view_strings(v@).subrange(0, v.len() as int) =~= view_strings(v@));
    }
    r
}

/// An executor that treats every command as `echo`: the output is the
/// argument list itself, one line per argument.
pub struct EchoExecutor {}

impl Executor for EchoExecutor {
    open spec fn spec_invoke(&self, name: Seq<char>, args: Lines, piped: bool) -> Lines {
        args
    }

    fn invoke(&self, name: &String, args: &Vec<String>, piped: bool) -> (r: Vec<String>) {
        clone_lines(args)
    }
}

/// An executor whose output records the whole invocation: the command
/// name, then `"|"` if the input was piped and `"-"` if not, then the
/// arguments.  Useful to observe exactly how the evaluator dispatches.
pub struct TraceExecutor {}

impl Executor for TraceExecutor {
    open spec fn spec_invoke(&self, name: Seq<char>, args: Lines, piped: bool) -> Lines {
        seq![name, if piped { "|"@ } else { "-"@ }] + args
    }

    fn invoke(&self, name: &String, args: &Vec<String>, piped: bool) -> (r: Vec<String>) {
        let mut r: Vec<String> = Vec::new();
        r.push(name.clone());
        if piped {
            r.push("|".to_owned());
        } else {
            r.push("-".to_owned());
        }
        let mut rest = clone_lines(args);
        r.append(&mut rest);
        proof {
            assert(view_strings(r@) =~= self.spec_invoke(name@, view_strings(args@), piped));
        }
        r
    }
}

} // verus!
