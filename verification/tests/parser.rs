use lip::parser::{parse, parse_internal, Expr, If, Operator, ParserErr};
use lip::tokenizer::tokenize;

fn and(exprs: Vec<Expr>) -> Expr {
    call(Expr::Operator(Operator::And), exprs)
}

fn or(exprs: Vec<Expr>) -> Expr {
    call(Expr::Operator(Operator::Or), exprs)
}

fn not(exprs: Vec<Expr>) -> Expr {
    call(Expr::Operator(Operator::Not), exprs)
}

fn if_expr(cond: Expr, then_branch: Expr, other: Expr) -> Expr {
    Expr::If(If::new(cond, then_branch, other))
}

fn call(operator: Expr, operands: Vec<Expr>) -> Expr {
    Expr::Call(Box::new(operator), operands)
}

fn def(ident: &str, expr: Expr) -> Expr {
    Expr::Def(ident.to_string(), Box::new(expr))
}

fn lambda(args: &[&str], expr: Expr) -> Expr {
    Expr::Lambda(
        args.iter().map(|arg| arg.to_string()).collect(),
        Box::new(expr),
    )
}

fn ident(ident: &str) -> Expr {
    Expr::Ident(ident.to_string())
}

#[test]
fn parse_bool_succeed() {
    let tokens = tokenize("T").unwrap();
    let (expr, cnt) = parse_internal(&tokens).unwrap();
    assert_eq!(tokens.len(), cnt);
    assert_eq!(Expr::Bool(true), expr);
}

#[test]
fn parse_operator_succeed() {
    for (str, operator) in [
        ("&", Operator::And),
        ("|", Operator::Or),
        ("^", Operator::Not),
    ] {
        let tokens = tokenize(str).unwrap();
        let (expr, cnt) = parse_internal(&tokens).unwrap();
        assert_eq!(tokens.len(), cnt);
        assert_eq!(Expr::Operator(operator), expr);
    }
}

#[test]
fn parse_call_and_succeed() {
    let tokens = tokenize("(& T (| F F T) (^ T))").unwrap();
    let (expr, cnt) = parse_internal(&tokens).unwrap();
    assert_eq!(tokens.len(), cnt);
    assert_eq!(
        and(vec![
            Expr::Bool(true),
            or(vec![Expr::Bool(false), Expr::Bool(false), Expr::Bool(true)]),
            not(vec![Expr::Bool(true)])
        ]),
        expr
    );
}

#[test]
fn parse_if_succeed() {
    let tokens = tokenize("(if (& T T) T (| F F))").unwrap();
    let (expr, cnt) = parse_internal(&tokens).unwrap();
    assert_eq!(tokens.len(), cnt);
    assert_eq!(
        if_expr(
            and(vec![Expr::Bool(true), Expr::Bool(true)]),
            Expr::Bool(true),
            or(vec![Expr::Bool(false), Expr::Bool(false)])
        ),
        expr
    );
}

#[test]
fn parse_if_operator_succeed() {
    let tokens = tokenize("((if T & |) T F)").unwrap();
    let (expr, cnt) = parse_internal(&tokens).unwrap();
    assert_eq!(tokens.len(), cnt);
    assert_eq!(
        call(
            if_expr(
                Expr::Bool(true),
                Expr::Operator(Operator::And),
                Expr::Operator(Operator::Or)
            ),
            vec![Expr::Bool(true), Expr::Bool(false)]
        ),
        expr
    );
}

#[test]
fn parse_def_succeed() {
    let tokens = tokenize("(def myvar (& T T F))").unwrap();
    let (expr, cnt) = parse_internal(&tokens).unwrap();
    assert_eq!(tokens.len(), cnt);
    assert_eq!(
        def(
            "myvar",
            and(vec![Expr::Bool(true), Expr::Bool(true), Expr::Bool(false)])
        ),
        expr
    );
}

#[test]
fn parse_lambda_succeed() {
    let tokens = tokenize("(lambda (a b) (& a b T))").unwrap();
    let (expr, cnt) = parse_internal(&tokens).unwrap();
    println!("{expr:?}");
    assert_eq!(tokens.len(), cnt);
    assert_eq!(
        lambda(
            &["a", "b"],
            and(vec![ident("a"), ident("b"), Expr::Bool(true)])
        ),
        expr
    );
}

#[test]
fn parse_call_lambda_succeed() {
    let tokens = tokenize("((lambda (x) (^ x)) (& T))").unwrap();
    let (expr, cnt) = parse_internal(&tokens).unwrap();
    assert_eq!(tokens.len(), cnt);
    assert_eq!(
        call(
            lambda(&["x"], not(vec![ident("x")])),
            vec![and(vec![Expr::Bool(true)])]
        ),
        expr
    );
}

#[test]
fn parse_ident_succeed() {
    let tokens = tokenize("(if a (& T T) (| b c))").unwrap();
    let (expr, cnt) = parse_internal(&tokens).unwrap();
    assert_eq!(tokens.len(), cnt);
    assert_eq!(
        if_expr(
            ident("a"),
            and(vec![Expr::Bool(true), Expr::Bool(true)]),
            or(vec![ident("b"), ident("c")])
        ),
        expr
    );
}

#[test]
fn parse_invalid_expr_fail() {
    let tokens = tokenize("(& T F").unwrap();
    match parse_internal(&tokens) {
        Err(ParserErr::Parse(_)) => (),
        _ => panic!(),
    }
}

#[test]
fn parse_works() {
    let tokens = tokenize("(^ (& T F (| F F)))").unwrap();
    let (expr, consumed) = parse_internal(&tokens).unwrap();
    assert_eq!(tokens.len(), consumed);
    assert_eq!(
        not(vec![and(vec![
            Expr::Bool(true),
            Expr::Bool(false),
            or(vec![Expr::Bool(false), Expr::Bool(false)])
        ])]),
        expr
    );
}

#[test]
fn parse_if_works() {
    let tokens = tokenize("(if T & |)").unwrap();
    let (expr, consumed) = parse_internal(&tokens).unwrap();
    assert_eq!(tokens.len(), consumed);
    assert_eq!(
        if_expr(
            Expr::Bool(true),
            Expr::Operator(Operator::And),
            Expr::Operator(Operator::Or)
        ),
        expr
    );
}

#[test]
fn parse_lone_open_paren_fails() {
    let tokens = tokenize("(").unwrap();
    assert!(parse(&tokens).is_err());
}

#[test]
fn parse_unterminated_if_fails() {
    let tokens = tokenize("(if T T T").unwrap();
    assert!(parse(&tokens).is_err());
}

#[test]
fn parse_unterminated_def_fails() {
    let tokens = tokenize("(def x T").unwrap();
    assert!(parse(&tokens).is_err());
}

#[test]
fn parse_unterminated_lambda_fails() {
    let tokens = tokenize("(lambda (a) a").unwrap();
    assert!(parse(&tokens).is_err());
}

#[test]
fn parse_lambda_with_atom_body_succeed() {
    let tokens = tokenize("(lambda (a) x)").unwrap();
    let (expr, cnt) = parse_internal(&tokens).unwrap();
    assert_eq!(tokens.len(), cnt);
    assert_eq!(lambda(&["a"], ident("x")), expr);
}

#[test]
fn parse_lambda_empty_params_succeed() {
    let tokens = tokenize("(lambda () T)").unwrap();
    let (expr, cnt) = parse_internal(&tokens).unwrap();
    assert_eq!(tokens.len(), cnt);
    assert_eq!(lambda(&[], Expr::Bool(true)), expr);
}

#[test]
fn parse_lambda_keyword_param_fails() {
    let tokens = tokenize("(lambda (if) T)").unwrap();
    assert!(parse(&tokens).is_err());
}

#[test]
fn parse_empty_call_fails() {
    let tokens = tokenize("()").unwrap();
    assert!(parse(&tokens).is_err());
}

#[test]
fn parse_ignores_trailing_tokens() {
    let tokens = tokenize("T F F").unwrap();
    assert_eq!(Expr::Bool(true), parse(&tokens).unwrap());
}

#[test]
fn expr_to_string_prints_source_form() {
    let tokens = tokenize("((lambda (a b) (^ (& a b))) T (if T F T))").unwrap();
    let expr = parse(&tokens).unwrap();
    assert_eq!("((lambda (a b) (^ (& a b))) T (if T F T))", expr.to_string());
    let again = parse(&tokenize(&expr.to_string()).unwrap()).unwrap();
    assert_eq!(expr, again);
}

#[test]
fn def_to_string_prints_source_form() {
    let tokens = tokenize("(def nand (lambda (a b) (^ (& a b))))").unwrap();
    let expr = parse(&tokens).unwrap();
    assert_eq!("(def nand (lambda (a b) (^ (& a b))))", expr.to_string());
}
