use basher::{parse, ChainElem, Expr, Operator};

#[test]
fn parse_empty_input() {
    let scope = parse("").unwrap();
    assert_eq!(scope.len(), 0);
}

#[test]
fn parse_blank_input() {
    let scope = parse("  \n\t \r\n ").unwrap();
    assert_eq!(scope.len(), 0);
}

#[test]
fn parse_simple_call() {
    let scope = parse("echo hi").unwrap();
    assert_eq!(scope.len(), 1);
    match &scope[0] {
        Expr::Chain(chain) => {
            assert_eq!(chain.len(), 1);
            match &chain[0] {
                ChainElem::Call(call) => {
                    assert_eq!(call.len(), 2);
                    assert_eq!(call[0], "echo");
                    assert_eq!(call[1], "hi");
                }
                ChainElem::Op(_) => panic!("expected a call"),
            }
        }
        Expr::Func(_) => panic!("expected a chain"),
    }
}

#[test]
fn parse_multiline_program() {
    let scope = parse("echo a\necho b").unwrap();
    assert_eq!(scope.len(), 2);
    assert!(matches!(scope[0], Expr::Chain(_)));
    assert!(matches!(scope[1], Expr::Chain(_)));
}

#[test]
fn parse_all_operators() {
    let scope = parse("a | b && c > d").unwrap();
    assert_eq!(scope.len(), 1);
    match &scope[0] {
        Expr::Chain(chain) => {
            assert_eq!(chain.len(), 7);
            assert!(matches!(chain[0], ChainElem::Call(_)));
            assert!(matches!(chain[1], ChainElem::Op(Operator::Pipe)));
            assert!(matches!(chain[2], ChainElem::Call(_)));
            assert!(matches!(chain[3], ChainElem::Op(Operator::And)));
            assert!(matches!(chain[4], ChainElem::Call(_)));
            assert!(matches!(chain[5], ChainElem::Op(Operator::Redir)));
            assert!(matches!(chain[6], ChainElem::Call(_)));
        }
        Expr::Func(_) => panic!("expected a chain"),
    }
}

#[test]
fn parse_function_definition() {
    let scope = parse("greet(){ echo hi }").unwrap();
    assert_eq!(scope.len(), 1);
    match &scope[0] {
        Expr::Func(f) => {
            assert_eq!(f.ident, "greet");
            assert_eq!(f.body.len(), 1);
            assert!(matches!(f.body[0], Expr::Chain(_)));
        }
        Expr::Chain(_) => panic!("expected a function definition"),
    }
}

#[test]
fn parse_nested_function_definition() {
    let scope = parse("outer(){ inner(){ echo x } }").unwrap();
    assert_eq!(scope.len(), 1);
    match &scope[0] {
        Expr::Func(outer) => {
            assert_eq!(outer.ident, "outer");
            assert_eq!(outer.body.len(), 1);
            match &outer.body[0] {
                Expr::Func(inner) => {
                    assert_eq!(inner.ident, "inner");
                    assert_eq!(inner.body.len(), 1);
                }
                Expr::Chain(_) => panic!("expected the inner definition"),
            }
        }
        Expr::Chain(_) => panic!("expected a function definition"),
    }
}

#[test]
fn parse_multiline_function_body() {
    let scope = parse("f(){\n echo a\n echo b\n}\nf").unwrap();
    assert_eq!(scope.len(), 2);
    match &scope[0] {
        Expr::Func(f) => assert_eq!(f.body.len(), 2),
        Expr::Chain(_) => panic!("expected a function definition"),
    }
}

#[test]
fn parse_rejects_single_ampersand() {
    let err = match parse("a & b") {
        Err(e) => e,
        Ok(_) => panic!("expected a syntax error"),
    };
    assert_eq!(err.at, 2);
}

#[test]
fn parse_rejects_trailing_operator() {
    assert!(parse("a &&").is_err());
    assert!(parse("a |").is_err());
    assert!(parse("a >\n").is_err());
}

#[test]
fn parse_rejects_leading_operator() {
    assert!(parse("| a").is_err());
    assert!(parse("&& a").is_err());
}

#[test]
fn parse_rejects_adjacent_operators() {
    assert!(parse("a | | b").is_err());
    assert!(parse("a && > b").is_err());
}

#[test]
fn parse_rejects_unterminated_body() {
    assert!(parse("f(){ echo hi").is_err());
}

#[test]
fn parse_rejects_stray_closing_brace() {
    assert!(parse("}").is_err());
    assert!(parse("echo hi }").is_err());
}

#[test]
fn parse_rejects_malformed_definition_head() {
    assert!(parse("f({ echo hi }").is_err());
    assert!(parse("f() echo").is_err());
}

#[test]
fn parse_error_positions_stay_in_range() {
    for src in ["a &", "f(){", "(", ")", "{", "a | |"] {
        if let Err(e) = parse(src) {
            assert!(e.at <= src.chars().count());
        }
    }
}
