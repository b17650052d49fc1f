//! The tree builder: turns source text into a [`Scope`].
//!
//! The grammar, over characters:
//!
//! - a program is a sequence of statements separated by whitespace
//!   (newlines included);
//! - a statement is a function definition — a name immediately followed
//!   by `()`, optional blanks, and a `{ ... }` body holding a nested
//!   program — or a chain;
//! - a chain is one or more calls joined by the operators `|` (pipe),
//!   `>` (redirection) and `&&` (logical and), and ends at a newline, a
//!   closing brace or the end of the input;
//! - a call is one or more tokens separated by spaces or tabs; a token
//!   is a maximal run of characters other than whitespace and
//!   `(`, `)`, `{`, `}`, `|`, `>`, `&`.
//!
//! The grammar is fixed once and for all by the specification functions
//! `spec_parse` and its helpers; the executable [`parse`] returns, for
//! every input, exactly what `spec_parse` says: the input's one tree on
//! success, and a [`SyntaxError`] — no partial tree — exactly when the
//! input does not match.  A tree this parser returns is also well
//! formed: every call has at least its name token, every chain is
//! non-empty, and an operator never stands first or last in a chain.

use vstd::prelude::*;
use vstd::string::StrSliceExecFns;

use crate::ast::{lemma_view_chain_push, lemma_view_scope_push, lemma_view_strings_push};
use crate::ast::{view_chain, view_elem, view_expr, view_scope, view_strings, wf_call, wf_chain,
    wf_expr, wf_scope};
use crate::ast::{ChainElem, ChainElemV, Expr, ExprV, Func, FuncV, Operator, Scope};

verus! {

/// A parse failure: `at` is the character position (0-based) at which
/// the source text stopped matching the grammar.
#[derive(Clone, Copy, Debug)]
pub struct SyntaxError {
    pub at: usize,
}

/// Characters that cannot appear inside a token: whitespace and the
/// language's punctuation.
pub open spec fn special_char(c: char) -> bool {
    ||| c == ' '
    ||| c == '\t'
    ||| c == '\r'
    ||| c == '\n'
    ||| c == '('
    ||| c == ')'
    ||| c == '{'
    ||| c == '}'
    ||| c == '|'
    ||| c == '>'
    ||| c == '&'
}

/// Blank characters that may separate tokens within one chain.
pub open spec fn blank_char(c: char) -> bool {
    c == ' ' || c == '\t' || c == '\r'
}

/// The first position at or after `i` holding no blank.
pub open spec fn spec_skip_blanks(s: Seq<char>, i: int) -> int
    decreases s.len() - i,
{
    if i < s.len() && blank_char(s[i]) {
        spec_skip_blanks(s, i + 1)
    } else {
        i
    }
}

/// The first position at or after `i` that ends a token.
pub open spec fn spec_token_end(s: Seq<char>, i: int) -> int
    decreases s.len() - i,
{
    if i < s.len() && !special_char(s[i]) {
        spec_token_end(s, i + 1)
    } else {
        i
    }
}

/// The remaining tokens of a call scanned from `j`, after `acc`, and the
/// position after the call.  The scan only moves forward; the bounds
/// test keeps the recursion well founded and holds at every position
/// the scan reaches.
pub open spec fn spec_read_call_rest(s: Seq<char>, j: int, acc: Seq<Seq<char>>) -> (
    Seq<Seq<char>>,
    int,
)
    decreases s.len() - j,
{
    let j2 = spec_skip_blanks(s, j);
    if j2 >= s.len() || special_char(s[j2]) {
        (acc, j2)
    } else {
        let te = spec_token_end(s, j2);
        if j < te <= s.len() {
            spec_read_call_rest(s, te, acc.push(s.subrange(j2, te)))
        } else {
            (acc, j2)
        }
    }
}

/// The tokens of the call starting at `i` — a token must stand there —
/// and the position after the call.
pub open spec fn spec_read_call(s: Seq<char>, i: int) -> (Seq<Seq<char>>, int) {
    let te = spec_token_end(s, i);
    spec_read_call_rest(s, te, seq![s.subrange(i, te)])
}

/// The rest of a chain scanned from `j`, with the elements `acc` already
/// read: the chain and the position of what ended it, or `None` where
/// the text stops matching (an operator with no call after it, a stray
/// `&`, or punctuation where a call should stand).
pub open spec fn spec_parse_chain_rest(s: Seq<char>, j: int, acc: Seq<ChainElemV>) -> Option<
    (ExprV, int),
>
    decreases s.len() - j, 1int,
{
    let j0 = spec_skip_blanks(s, j);
    if j0 >= s.len() || s[j0] == '\n' || s[j0] == '}' {
        Some((ExprV::Chain(acc), j0))
    } else if s[j0] == '|' {
        spec_parse_chain_op(s, j, j0 + 1, Operator::Pipe, acc)
    } else if s[j0] == '>' {
        spec_parse_chain_op(s, j, j0 + 1, Operator::Redir, acc)
    } else if s[j0] == '&' && j0 + 1 < s.len() && s[j0 + 1] == '&' {
        spec_parse_chain_op(s, j, j0 + 2, Operator::And, acc)
    } else {
        None
    }
}

/// The call that must follow the operator `o` (which ended at `j1`),
/// then the rest of the chain.  `j` is where the scan of the previous
/// element stopped; the bounds test keeps the recursion well founded
/// and holds at every position the scan reaches.
pub open spec fn spec_parse_chain_op(
    s: Seq<char>,
    j: int,
    j1: int,
    o: Operator,
    acc: Seq<ChainElemV>,
) -> Option<(ExprV, int)>
    decreases s.len() - j, 0int,
{
    let j2 = spec_skip_blanks(s, j1);
    if j2 >= s.len() || special_char(s[j2]) {
        None
    } else {
        let tokens = spec_read_call(s, j2).0;
        let j3 = spec_read_call(s, j2).1;
        if j < j3 <= s.len() {
            spec_parse_chain_rest(
                s,
                j3,
                acc.push(ChainElemV::Op(o)).push(ChainElemV::Call(tokens)),
            )
        } else {
            None
        }
    }
}

/// The chain starting at `i` — a token must stand there.
pub open spec fn spec_parse_chain(s: Seq<char>, i: int) -> Option<(ExprV, int)> {
    let tokens = spec_read_call(s, i).0;
    let j = spec_read_call(s, i).1;
    spec_parse_chain_rest(s, j, seq![ChainElemV::Call(tokens)])
}

/// The statement starting at `i` — a token must stand there: a function
/// definition when the token is immediately followed by `(`, otherwise
/// a chain.
pub open spec fn spec_parse_expr(s: Seq<char>, i: int) -> Option<(ExprV, int)>
    decreases s.len() - i, 0int,
{
    let te = spec_token_end(s, i);
    if te < s.len() && s[te] == '(' {
        if te + 1 < s.len() && s[te + 1] == ')' {
            let jb = spec_skip_blanks(s, te + 2);
            if jb < s.len() && s[jb] == '{' && i < jb + 1 {
                match spec_parse_scope_rest(s, jb + 1, Seq::empty()) {
                    None => None,
                    Some((body, be)) => {
                        if be < s.len() && s[be] == '}' {
                            Some((ExprV::Func(FuncV { ident: s.subrange(i, te), body }), be + 1))
                        } else {
                            None
                        }
                    },
                }
            } else {
                None
            }
        } else {
            None
        }
    } else {
        spec_parse_chain(s, i)
    }
}

/// The statements scanned from `cur`, after `acc`: the scope and the
/// position of the end of input or closing brace that ended it, or
/// `None` where the text stops matching.  The scan only moves forward;
/// the bounds test keeps the recursion well founded and holds at every
/// position the scan reaches.
pub open spec fn spec_parse_scope_rest(s: Seq<char>, cur: int, acc: Seq<ExprV>) -> Option<
    (Seq<ExprV>, int),
>
    decreases s.len() - cur, 1int,
{
    if cur >= s.len() {
        Some((acc, cur))
    } else if s[cur] == '}' {
        Some((acc, cur))
    } else if blank_char(s[cur]) || s[cur] == '\n' {
        spec_parse_scope_rest(s, cur + 1, acc)
    } else if special_char(s[cur]) {
        None
    } else {
        match spec_parse_expr(s, cur) {
            None => None,
            Some((ev, j)) => {
                if cur < j <= s.len() {
                    spec_parse_scope_rest(s, j, acc.push(ev))
                } else {
                    None
                }
            },
        }
    }
}

/// The scope starting at `cur`.
pub open spec fn spec_parse_scope(s: Seq<char>, cur: int) -> Option<(Seq<ExprV>, int)> {
    spec_parse_scope_rest(s, cur, Seq::empty())
}

/// The tree of a whole source text: its scope, provided the scan
/// consumes every character — a closing brace with no open body, like
/// any text outside the grammar, yields `None`.
pub open spec fn spec_parse(s: Seq<char>) -> Option<Seq<ExprV>> {
    match spec_parse_scope(s, 0) {
        None => None,
        Some((sc, end)) => if end == s.len() {
            Some(sc)
        } else {
            None
        },
    }
}

/// Executable test for [`special_char`].
fn is_special(c: char) -> (r: bool)
    ensures
        r == special_char(c),
{
    c == ' ' || c == '\t' || c == '\r' || c == '\n' || c == '(' || c == ')' || c == '{' || c == '}'
        || c == '|' || c == '>' || c == '&'
}

/// Executable test for [`blank_char`].
fn is_blank(c: char) -> (r: bool)
    ensures
        r == blank_char(c),
{
    c == ' ' || c == '\t' || c == '\r'
}

/// Advance past spaces, tabs and carriage returns.
fn skip_blanks(s: &str, i: usize) -> (j: usize)
    requires
        i <= s@.len(),
    ensures
        i <= j <= s@.len(),
        j == spec_skip_blanks(s@, i as int),
{
    let n = s.unicode_len();
    let mut j = i;
    while j < n && is_blank(s.get_char(j))
        invariant
            i <= j <= n,
            n == s@.len(),
            spec_skip_blanks(s@, i as int) == spec_skip_blanks(s@, j as int),
        decreases n - j,
    {
        j += 1;
    }
    j
}

/// Read one token starting at `i`: the maximal run of non-special characters.
fn read_token(s: &str, i: usize) -> (r: (String, usize))
    requires
        i < s@.len(),
        !special_char(s@[i as int]),
    ensures
        i < r.1 <= s@.len(),
        r.0@ == s@.subrange(i as int, r.1 as int),
        r.1 == spec_token_end(s@, i as int),
{
    let n = s.unicode_len();
    let mut j = i + 1;
    while j < n && !is_special(s.get_char(j))
        invariant
            i < j <= n,
            n == s@.len(),
            spec_token_end(s@, i as int) == spec_token_end(s@, j as int),
        decreases n - j,
    {
        j += 1;
    }
    let sub = s.substring_char(i, j);
    (sub.to_owned(), j)
}

/// Read a call: one or more tokens separated by blanks.
fn read_call(s: &str, i: usize) -> (r: (Vec<String>, usize))
    requires
        i < s@.len(),
        !special_char(s@[i as int]),
    ensures
        i < r.1 <= s@.len(),
        wf_call(view_strings(r.0@)),
        (view_strings(r.0@), r.1 as int) == spec_read_call(s@, i as int),
{
    let n = s.unicode_len();
    let (tok0, first_end) = read_token(s, i);
    let mut call: Vec<String> = Vec::new();
    let ghost empty_tokens = view_strings(call@);
    call.push(tok0);
    let mut j = first_end;
    proof {
        assert(empty_tokens =~= Seq::<Seq<char>>::empty());
        lemma_view_strings_push(Seq::empty(), tok0);
        assert(view_strings(call@) =~= seq![s@.subrange(i as int, j as int)]);
    }
    loop
        invariant
            i < j <= n,
            n == s@.len(),
            view_strings(call@).len() >= 1,
            spec_read_call(s@, i as int) == spec_read_call_rest(s@, j as int, view_strings(call@)),
        decreases n - j,
    {
        let ghost acc = view_strings(call@);
        let j2 = skip_blanks(s, j);
        if j2 >= n {
            return (call, j2);
        }
        let c = s.get_char(j2);
        if is_special(c) {
            return (call, j2);
        }
        let (tok, j3) = read_token(s, j2);
        proof {
            lemma_view_strings_push(call@, tok);
        }
        call.push(tok);
        j = j3;
        proof {
            assert(view_strings(call@) =~= acc.push(s@.subrange(j2 as int, j3 as int)));
        }
    }
}

/// Parse a chain: calls separated by `|`, `>` or `&&`, ending at a
/// newline, a closing brace or the end of the input.
fn parse_chain_x(s: &str, i: usize) -> (r: Result<(Expr, usize), SyntaxError>)
    requires
        i < s@.len(),
        !special_char(s@[i as int]),
    ensures
        r matches Ok(p) ==> wf_expr(view_expr(p.0)) && i < p.1 <= s@.len(),
        r matches Ok(p) ==> spec_parse_chain(s@, i as int) == Some((view_expr(p.0), p.1 as int)),
        r matches Err(e) ==> e.at <= s@.len(),
        r matches Err(e) ==> spec_parse_chain(s@, i as int) is None,
{
    let n = s.unicode_len();
    let (call0, first_end) = read_call(s, i);
    let mut elems: Vec<ChainElem> = Vec::new();
    let ghost no_elems = view_chain(elems@);
    elems.push(ChainElem::Call(call0));
    let mut j = first_end;
    proof {
        assert(no_elems =~= Seq::<ChainElemV>::empty());
        assert(view_chain(elems@)[0] == view_elem(elems@[0]));
        assert(view_chain(elems@) =~= seq![view_elem(elems@[0])]);
        assert(wf_chain(view_chain(elems@)));
    }
    loop
        invariant
            i < j <= n,
            n == s@.len(),
            wf_chain(view_chain(elems@)),
            spec_parse_chain(s@, i as int) == spec_parse_chain_rest(
                s@,
                j as int,
                view_chain(elems@),
            ),
        decreases n - j,
    {
        let ghost acc = view_chain(elems@);
        j = skip_blanks(s, j);
        if j >= n {
            proof {
                assert(view_expr(Expr::Chain(elems)) == ExprV::Chain(acc));
            }
            return Ok((Expr::Chain(elems), j));
        }
        let c = s.get_char(j);
        if c == '\n' || c == '}' {
            proof {
                assert(view_expr(Expr::Chain(elems)) == ExprV::Chain(acc));
            }
            return Ok((Expr::Chain(elems), j));
        }
        let op: Operator;
        if c == '|' {
            op = Operator::Pipe;
            j += 1;
        } else if c == '>' {
            op = Operator::Redir;
            j += 1;
        } else if c == '&' {
            if j + 1 < n && s.get_char(j + 1) == '&' {
                op = Operator::And;
                j += 2;
            } else {
                return Err(SyntaxError { at: j });
            }
        } else {
            return Err(SyntaxError { at: j });
        }
        j = skip_blanks(s, j);
        if j >= n {
            return Err(SyntaxError { at: j });
        }
        let c2 = s.get_char(j);
        if is_special(c2) {
            return Err(SyntaxError { at: j });
        }
        let (call, after_call) = read_call(s, j);
        let ghost pre = elems@;
        proof {
            lemma_view_chain_push(pre, ChainElem::Op(op));
            lemma_view_chain_push(pre.push(ChainElem::Op(op)), ChainElem::Call(call));
        }
        elems.push(ChainElem::Op(op));
        elems.push(ChainElem::Call(call));
        j = after_call;
        proof {
            let cv = view_chain(elems@);
            assert(cv == acc.push(ChainElemV::Op(op)).push(ChainElemV::Call(view_strings(call@))));
            assert forall|m: int|
                0 <= m < cv.len() implies (#[trigger] cv[m] matches ChainElemV::Call(x)
                ==> wf_call(x)) by {
                if m < acc.len() {
                    assert(cv[m] == acc[m]);
                } else if m == acc.len() {
                    assert(cv[m] == ChainElemV::Op(op));
                } else {
                    assert(cv[m] == ChainElemV::Call(view_strings(call@)));
                }
            }
            assert(cv[0] == acc[0]);
            assert(wf_chain(cv));
        }
    }
}

/// Parse one statement: a function definition when the first token is
/// immediately followed by `(`, otherwise a chain.
fn parse_expr_x(s: &str, i: usize) -> (r: Result<(Expr, usize), SyntaxError>)
    requires
        i < s@.len(),
        !special_char(s@[i as int]),
    ensures
        r matches Ok(p) ==> wf_expr(view_expr(p.0)) && i < p.1 <= s@.len(),
        r matches Ok(p) ==> spec_parse_expr(s@, i as int) == Some((view_expr(p.0), p.1 as int)),
        r matches Err(e) ==> e.at <= s@.len(),
        r matches Err(e) ==> spec_parse_expr(s@, i as int) is None,
    decreases s@.len() - i, 0int,
{
    let n = s.unicode_len();
    let (ident, tok_end) = read_token(s, i);
    if tok_end < n && s.get_char(tok_end) == '(' {
        let mut j = tok_end + 1;
        if !(j < n && s.get_char(j) == ')') {
            return Err(SyntaxError { at: j });
        }
        j += 1;
        j = skip_blanks(s, j);
        if !(j < n && s.get_char(j) == '{') {
            return Err(SyntaxError { at: j });
        }
        j += 1;
        match parse_scope_x(s, j) {
            Err(e) => Err(e),
            Ok((body, body_end)) => {
                if body_end < n && s.get_char(body_end) == '}' {
                    let ghost ident0 = ident@;
                    let ghost bodyv = view_scope(body);
                    let e = Expr::Func(Func { ident, body });
                    proof {
                        assert(view_expr(e) == ExprV::Func(FuncV { ident: ident0, body: bodyv }));
                    }
                    Ok((e, body_end + 1))
                } else {
                    // the body ran to the end of the input unclosed
                    Err(SyntaxError { at: body_end })
                }
            },
        }
    } else {
        parse_chain_x(s, i)
    }
}

/// Parse statements until the end of the input or a closing brace (the
/// brace is left for the caller to consume).
fn parse_scope_x(s: &str, i: usize) -> (r: Result<(Scope, usize), SyntaxError>)
    requires
        i <= s@.len(),
    ensures
        r matches Ok(p) ==> wf_scope(view_scope(p.0)) && i <= p.1 <= s@.len(),
        r matches Ok(p) ==> spec_parse_scope(s@, i as int) == Some((view_scope(p.0), p.1 as int)),
        r matches Err(e) ==> e.at <= s@.len(),
        r matches Err(e) ==> spec_parse_scope(s@, i as int) is None,
    decreases s@.len() - i, 1int,
{
    let n = s.unicode_len();
    let mut exprs: Vec<Expr> = Vec::new();
    let mut cur = i;
    proof {
        assert(view_scope(exprs).len() == 0);
        assert(view_scope(exprs) =~= Seq::<ExprV>::empty());
    }
    loop
        invariant
            i <= cur <= n,
            n == s@.len(),
            wf_scope(view_scope(exprs)),
            spec_parse_scope(s@, i as int) == spec_parse_scope_rest(
                s@,
                cur as int,
                view_scope(exprs),
            ),
        decreases n - cur,
    {
        if cur >= n {
            return Ok((exprs, cur));
        }
        let c = s.get_char(cur);
        if c == '}' {
            return Ok((exprs, cur));
        }
        if c == ' ' || c == '\t' || c == '\r' || c == '\n' {
            cur += 1;
        } else if is_special(c) {
            // an operator or brace where a statement should begin
            return Err(SyntaxError { at: cur });
        } else {
            match parse_expr_x(s, cur) {
                Err(e) => {
                    return Err(e);
                },
                Ok((e, j)) => {
                    let ghost pre_vec = exprs;
                    let ghost e0 = e;
                    exprs.push(e);
                    proof {
                        lemma_view_scope_push(pre_vec, exprs, e0);
                        assert forall|m: int|
                            0 <= m < exprs@.len() implies wf_expr(view_scope(exprs)[m]) by {
                            assert(view_scope(exprs)[m] == view_expr(exprs@[m]));
                            if m < pre_vec@.len() {
                                assert(exprs@[m] == pre_vec@[m]);
                                assert(view_scope(pre_vec)[m] == view_expr(pre_vec@[m]));
                            } else {
                                assert(exprs@[m] == e0);
                            }
                        }
                    }
                    cur = j;
                },
            }
        }
    }
}

/// Convert source text into a scope: exactly [`spec_parse`] of the
/// text.  On success the returned tree is the text's one parse and is
/// well formed (see the module documentation); the scan fails — with
/// the position at which it stopped, and no partial tree — exactly on
/// text that does not match the grammar.
pub fn parse(input: &str) -> (r: Result<Scope, SyntaxError>)
    ensures
        r matches Ok(sc) ==> wf_scope(view_scope(sc)),
        r matches Ok(sc) ==> spec_parse(input@) == Some(view_scope(sc)),
        r matches Err(e) ==> e.at <= input@.len(),
        r matches Err(e) ==> spec_parse(input@) is None,
{
    match parse_scope_x(input, 0) {
        Err(e) => Err(e),
        Ok((sc, end)) => {
            if end == input.unicode_len() {
                Ok(sc)
            } else {
                // a closing brace with no open function body
                Err(SyntaxError { at: end })
            }
        },
    }
}

} // verus!

