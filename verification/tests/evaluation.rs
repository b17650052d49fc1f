use basher::{
    eval, eval_scope, parse, BashError, ChainElem, EchoExecutor, Expr, Operator, TraceExecutor,
};

fn lines(items: &[&str]) -> Vec<String> {
    items.iter().map(|s| s.to_string()).collect()
}

#[test]
fn end_to_end_function_then_and() {
    // `echo` returns its arguments, so the function body yields "hi".
    let out = eval("greet(){ echo hi }\ngreet && echo bye", &EchoExecutor {}).unwrap();
    assert_eq!(out, lines(&["hi", "bye"]));
}

#[test]
fn end_to_end_pipe_echo() {
    // b's argument list becomes ["b", "a"], echoed line by line.
    let out = eval("echo a | echo b", &EchoExecutor {}).unwrap();
    assert_eq!(out, lines(&["b", "a"]));
}

#[test]
fn sequencing_concatenates_results_in_order() {
    let out = eval("echo a\necho b c\necho d", &EchoExecutor {}).unwrap();
    assert_eq!(out, lines(&["a", "b", "c", "d"]));

    let traced = eval("a x\nb y", &TraceExecutor {}).unwrap();
    assert_eq!(traced, lines(&["a", "-", "x", "b", "-", "y"]));
}

#[test]
fn pipe_sets_flag_and_appends_arguments() {
    // b runs piped, with a's result after its own argument; a's raw
    // result does not appear on its own in the output.
    let out = eval("a x | b y", &TraceExecutor {}).unwrap();
    assert_eq!(out, lines(&["b", "|", "y", "a", "-", "x"]));
}

#[test]
fn and_keeps_both_results_in_order() {
    let out = eval("a && b", &TraceExecutor {}).unwrap();
    assert_eq!(out, lines(&["a", "-", "b", "-"]));
}

#[test]
fn redir_discards_previous_result() {
    let out = eval("a > b", &TraceExecutor {}).unwrap();
    assert_eq!(out, lines(&["b", "-"]));
}

#[test]
fn redir_then_and_flushes_only_the_kept_result() {
    let out = eval("a > b && c", &TraceExecutor {}).unwrap();
    assert_eq!(out, lines(&["b", "-", "c", "-"]));
}

#[test]
fn function_shadows_executor() {
    // The executor is never invoked for `f`: no output line names it.
    let out = eval("f(){ echo inner }\nf", &TraceExecutor {}).unwrap();
    assert_eq!(out, lines(&["echo", "-", "inner"]));
    assert!(out.iter().all(|l| l != "f"));
}

#[test]
fn function_call_ignores_its_arguments() {
    let out = eval("f(){ echo shadowed }\nf extra args", &EchoExecutor {}).unwrap();
    assert_eq!(out, lines(&["shadowed"]));
}

#[test]
fn later_definition_overwrites_earlier() {
    let out = eval("f(){ echo one }\nf(){ echo two }\nf", &EchoExecutor {}).unwrap();
    assert_eq!(out, lines(&["two"]));
}

#[test]
fn inner_definition_not_callable_outside() {
    // `g` is defined inside `outer`'s body; after `outer` ran once, a
    // top-level call to `g` still goes to the executor.
    let out = eval("outer(){ g(){ echo in } }\nouter\ng", &TraceExecutor {}).unwrap();
    assert_eq!(out, lines(&["g", "-"]));
}

#[test]
fn inner_definition_callable_inside_its_body() {
    let out = eval("outer(){ g(){ echo in }\ng }\nouter", &EchoExecutor {}).unwrap();
    assert_eq!(out, lines(&["in"]));
}

#[test]
fn definition_visible_to_later_chains_only() {
    // A chain before the definition still reaches the executor.
    let out = eval("f\nf(){ echo body }\nf", &TraceExecutor {}).unwrap();
    assert_eq!(out, lines(&["f", "-", "echo", "-", "body"]));
}

#[test]
fn evaluating_twice_gives_identical_output() {
    let scope = parse("f(){ echo a && echo b }\nf | sink x\nf").unwrap();
    let ex = EchoExecutor {};
    let first = eval_scope(&scope, &ex).unwrap();
    let second = eval_scope(&scope, &ex).unwrap();
    assert_eq!(first, second);
}

#[test]
fn pipe_into_function_consumes_the_buffer() {
    // The piped lines are appended to the call's arguments, which a
    // function call then ignores; they are not flushed to the output.
    let out = eval("f(){ echo body }\na x | f", &TraceExecutor {}).unwrap();
    assert_eq!(out, lines(&["echo", "-", "body"]));
}

#[test]
fn recursion_reports_the_limit() {
    let res = eval("f(){ f }\nf", &EchoExecutor {});
    assert!(matches!(res, Err(BashError::RecursionLimit)));
}

#[test]
fn syntax_error_surfaces_through_eval() {
    let res = eval("a &", &EchoExecutor {});
    assert!(matches!(res, Err(BashError::Syntax(_))));
}

#[test]
fn empty_program_evaluates_to_no_output() {
    let out = eval("", &TraceExecutor {}).unwrap();
    assert_eq!(out, lines(&[]));
}

#[test]
fn tolerates_hand_built_empty_call() {
    // An empty call is undefined input: it resolves to a no-op with an
    // empty result instead of crashing.
    let scope = vec![Expr::Chain(vec![ChainElem::Call(vec![])])];
    let out = eval_scope(&scope, &TraceExecutor {}).unwrap();
    assert_eq!(out, lines(&[]));
}

#[test]
fn tolerates_hand_built_leading_operator() {
    // A leading pipe has no buffered result: the call runs unpiped.
    let scope = vec![Expr::Chain(vec![
        ChainElem::Op(Operator::Pipe),
        ChainElem::Call(lines(&["a"])),
    ])];
    let out = eval_scope(&scope, &TraceExecutor {}).unwrap();
    assert_eq!(out, lines(&["a", "-"]));
}

#[test]
fn tolerates_hand_built_trailing_operator() {
    let scope = vec![Expr::Chain(vec![
        ChainElem::Call(lines(&["a"])),
        ChainElem::Op(Operator::And),
    ])];
    let out = eval_scope(&scope, &TraceExecutor {}).unwrap();
    assert_eq!(out, lines(&["a", "-"]));
}

#[test]
fn three_stage_pipe_threads_each_result() {
    // Each stage receives the previous stage's full trace as arguments.
    let out = eval("a | b | c", &TraceExecutor {}).unwrap();
    assert_eq!(out, lines(&["c", "|", "b", "|", "a", "-"]));
}

#[test]
fn tokens_may_hold_punctuation() {
    let out = eval("grep -n foo=bar", &TraceExecutor {}).unwrap();
    assert_eq!(out, lines(&["grep", "-", "-n", "foo=bar"]));
}

#[test]
fn tabs_and_spaces_separate_tokens() {
    let out = eval("echo\ta  b", &EchoExecutor {}).unwrap();
    assert_eq!(out, lines(&["a", "b"]));
}

#[test]
fn executor_output_may_be_empty() {
    // A command with no arguments echoes nothing, and `&&` flushes the
    // empty buffer without adding lines.
    let out = eval("echo && echo x", &EchoExecutor {}).unwrap();
    assert_eq!(out, lines(&["x"]));
}

#[test]
fn tolerates_hand_built_empty_chain() {
    let scope = vec![Expr::Chain(vec![])];
    let out = eval_scope(&scope, &TraceExecutor {}).unwrap();
    assert_eq!(out, lines(&[]));
}
