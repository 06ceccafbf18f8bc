use lip::environment::Environment;
use lip::tokenizer::Token;
use lip::evaluator::{eval, EvalErr, Value};
use lip::parser::{parse, Expr, Operator};
use lip::tokenizer::tokenize;

fn eval_expr(expr: &str, env: &mut Environment) -> Result<Value, EvalErr> {
    let tokens = tokenize(expr).unwrap();
    let expr = parse(&tokens).unwrap();
    eval(&expr, env)
}

fn and(exprs: Vec<Expr>) -> Expr {
    call(Expr::Operator(Operator::And), exprs)
}

fn call(operator: Expr, operands: Vec<Expr>) -> Expr {
    Expr::Call(Box::new(operator), operands)
}

fn ident(ident: &str) -> Expr {
    Expr::Ident(ident.to_string())
}

#[test]
fn eval_bool_succeed() {
    let value = eval_expr("T", &mut Environment::default()).unwrap();
    assert_eq!(Value::Bool(true), value);
}

#[test]
fn eval_call_succeed() {
    // true & (false | false | true | false) & (!false) -> true
    let value = eval_expr("(& T (| F F T F) (^ F))", &mut Environment::default()).unwrap();
    assert_eq!(Value::Bool(true), value);
}

#[test]
fn eval_if_succeed() {
    // if true & true { true } else { false | false } -> true
    let value = eval_expr("(if (& T T) T (| F F))", &mut Environment::default()).unwrap();
    assert_eq!(Value::Bool(true), value);
}

#[test]
fn eval_if_to_operand_succeed() {
    // if !(true & true) { & } else { | } -> |
    let value = eval_expr("(if (^ (& T T)) & |)", &mut Environment::default()).unwrap();
    assert_eq!(Value::Operator(Operator::Or), value);
}

#[test]
fn eval_if_to_operator_succeed() {
    // (if T & |) picks &, then (& T F) -> false
    let value = eval_expr("((if T & |) T F)", &mut Environment::default()).unwrap();
    assert_eq!(Value::Bool(false), value);
}

#[test]
fn eval_invalid_operator_fail() {
    match eval_expr("(T T F)", &mut Environment::default()) {
        Err(EvalErr::Eval(_)) => (),
        _ => panic!(),
    }
}

#[test]
fn eval_not_an_operator_message() {
    match eval_expr("(T T F)", &mut Environment::default()) {
        Err(EvalErr::Eval(e)) => assert_eq!("`true is not an operator`", e),
        _ => panic!(),
    }
}

#[test]
fn eval_def_succeed() {
    let mut env = Environment::default();
    {
        let value = eval_expr("(def myvar (& T T F))", &mut env).unwrap();
        assert_eq!(Value::Bool(false), value);
    }
    {
        let value = eval_expr("myvar", &mut env).unwrap();
        assert_eq!(Value::Bool(false), value);
    }
    {
        let value = eval_expr("(def myvar (& T T T))", &mut env).unwrap();
        assert_eq!(Value::Bool(true), value);
    }
    {
        let value = eval_expr("myvar", &mut env).unwrap();
        assert_eq!(Value::Bool(true), value);
    }
}

#[test]
fn eval_lambda_succeed() {
    let value = eval_expr("(lambda (a b) (& a b T))", &mut Environment::default()).unwrap();
    assert_eq!(
        Value::Lambda(
            vec!["a".to_string(), "b".to_string()],
            and(vec![ident("a"), ident("b"), Expr::Bool(true)])
        ),
        value
    );
}

#[test]
fn eval_call_lambda_succeed() {
    let value = eval_expr(
        "((lambda (a b c) (| a b c)) F F T)",
        &mut Environment::default(),
    )
    .unwrap();
    assert_eq!(Value::Bool(true), value);
}

#[test]
fn eval_def_lambda_succeed() {
    let mut env = Environment::default();
    {
        let value = eval_expr("(def nand (lambda (a b) (^ (& a b))))", &mut env).unwrap();
        assert!(matches!(value, Value::Lambda(_, _)));
    }
    {
        let value = eval_expr("(nand T T)", &mut env).unwrap();
        assert_eq!(Value::Bool(false), value);
    }
}

#[test]
fn eval_display() {
    let mut env = Environment::default();
    assert_eq!(
        "primitive operator: &",
        eval_expr("&", &mut env).unwrap().to_string()
    );
    assert_eq!("true", eval_expr("T", &mut env).unwrap().to_string());
    assert_eq!(
        "lambda: (a b) -> (^ (& a b))",
        eval_expr("(lambda (a b) (^ (& a b)))", &mut env)
            .unwrap()
            .to_string()
    );
}

#[test]
fn eval_works() {
    // !(true & false & (false | false)) => true
    let value = eval_expr("(^ (& T F (| F F)))", &mut Environment::default()).unwrap();
    assert_eq!(Value::Bool(true), value);
}

#[test]
fn eval_if_works() {
    // (if T & |) => &, (& T F) => F
    let value = eval_expr("((if T & |) T F)", &mut Environment::default()).unwrap();
    assert_eq!(Value::Bool(false), value);
}

#[test]
fn eval_empty_and_is_true() {
    let value = eval_expr("(&)", &mut Environment::default()).unwrap();
    assert_eq!(Value::Bool(true), value);
}

#[test]
fn eval_empty_or_is_false() {
    let value = eval_expr("(|)", &mut Environment::default()).unwrap();
    assert_eq!(Value::Bool(false), value);
}

#[test]
fn eval_double_not_restores_value() {
    let mut env = Environment::default();
    assert_eq!(Value::Bool(true), eval_expr("(^ (^ T))", &mut env).unwrap());
    assert_eq!(Value::Bool(false), eval_expr("(^ (^ F))", &mut env).unwrap());
}

#[test]
fn eval_if_short_circuits_malformed_else() {
    // (^) alone is an arity error, but a true condition never evaluates it
    let mut env = Environment::default();
    assert_eq!(Value::Bool(true), eval_expr("(if T T (^))", &mut env).unwrap());
    assert!(eval_expr("(^)", &mut env).is_err());
}

#[test]
fn eval_if_short_circuits_malformed_then() {
    let mut env = Environment::default();
    assert_eq!(
        Value::Bool(false),
        eval_expr("(if F (notbound) F)", &mut env).unwrap()
    );
}

#[test]
fn eval_lambda_arity_mismatch_names_both_counts() {
    let mut env = Environment::default();
    eval_expr("(def both (lambda (a b) (& a b)))", &mut env).unwrap();
    match eval_expr("(both T)", &mut env) {
        Err(EvalErr::Eval(e)) => assert_eq!(
            "the number of arguments (2) is not the same as that of parameters (1)",
            e
        ),
        _ => panic!(),
    }
    match eval_expr("(both T F T)", &mut env) {
        Err(EvalErr::Eval(e)) => assert_eq!(
            "the number of arguments (2) is not the same as that of parameters (3)",
            e
        ),
        _ => panic!(),
    }
}

#[test]
fn eval_not_arity_must_be_one() {
    match eval_expr("(^ T T)", &mut Environment::default()) {
        Err(EvalErr::Eval(e)) => assert_eq!("the number of arguments of ^ must be 1", e),
        _ => panic!(),
    }
}

#[test]
fn eval_operand_must_be_bool() {
    match eval_expr("(& T &)", &mut Environment::default()) {
        Err(EvalErr::Eval(e)) => assert_eq!("operand must be bool", e),
        _ => panic!(),
    }
}

#[test]
fn eval_unknown_identifier_names_it() {
    match eval_expr("undefinedvar", &mut Environment::default()) {
        Err(EvalErr::Eval(e)) => assert_eq!("`undefinedvar` is not defined", e),
        _ => panic!(),
    }
}

#[test]
fn eval_lambda_parameter_shadows_outer_binding() {
    let mut env = Environment::default();
    eval_expr("(def x T)", &mut env).unwrap();
    // the parameter x shadows the outer x for the call's duration only
    assert_eq!(
        Value::Bool(true),
        eval_expr("((lambda (x) (^ x)) F)", &mut env).unwrap()
    );
    assert_eq!(Value::Bool(true), eval_expr("x", &mut env).unwrap());
}

#[test]
fn eval_def_inside_operand_persists() {
    let mut env = Environment::default();
    assert_eq!(
        Value::Bool(true),
        eval_expr("(& (def y T) y)", &mut env).unwrap()
    );
    assert_eq!(Value::Bool(true), eval_expr("y", &mut env).unwrap());
}

#[test]
fn eval_unbounded_recursion_reports_error() {
    // a self-application with no base case exhausts the recursion guard
    let mut env = Environment::default();
    eval_expr("(def loop (lambda () (loop)))", &mut env).unwrap();
    assert!(eval_expr("(loop)", &mut env).is_err());
}

#[test]
fn eval_guarded_recursion_terminates() {
    let mut env = Environment::default();
    eval_expr("(def guard (lambda (a) (if a (guard F) T)))", &mut env).unwrap();
    assert_eq!(Value::Bool(true), eval_expr("(guard T)", &mut env).unwrap());
}

#[test]
fn eval_bool_print_round_trip() {
    for b in [true, false] {
        let printed = Expr::Bool(b).to_string();
        assert_eq!(if b { "T" } else { "F" }, printed);
        let value = eval_expr(&printed, &mut Environment::default()).unwrap();
        assert_eq!(Value::Bool(b), value);
    }
}

#[test]
fn eval_and_literal_scenario() {
    // the full pipeline on "(& T F)"
    let tokens = tokenize("(& T F)").unwrap();
    assert_eq!(
        vec![
            Token::Lparen,
            Token::And,
            Token::True,
            Token::False,
            Token::Rparen
        ],
        tokens
    );
    let expr = parse(&tokens).unwrap();
    assert_eq!(
        call(
            Expr::Operator(Operator::And),
            vec![Expr::Bool(true), Expr::Bool(false)]
        ),
        expr
    );
    let value = eval(&expr, &mut Environment::default()).unwrap();
    assert_eq!(Value::Bool(false), value);
}

#[test]
fn environment_add_and_get_succeed() {
    let mut env = Environment::default();
    assert!(env.get("myvar").is_none());
    env.add("myvar".to_string(), Value::Bool(false));
    assert_eq!(Value::Bool(false), *env.get("myvar").unwrap());
}

#[test]
fn environment_layered_succeed() {
    let env_outer = Environment::new(vec![("x".to_string(), Value::Bool(true))], None);
    let env = Environment::new(Vec::new(), Some(Box::new(env_outer)));
    assert_eq!(Value::Bool(true), *env.get("x").unwrap());
}

#[test]
fn environment_extend_overwrites_and_adds() {
    let mut env = Environment::default();
    env.add("a".to_string(), Value::Bool(true));
    env.extend(vec![
        ("a".to_string(), Value::Bool(false)),
        ("b".to_string(), Value::Bool(true)),
    ]);
    assert_eq!(Value::Bool(false), *env.get("a").unwrap());
    assert_eq!(Value::Bool(true), *env.get("b").unwrap());
}

#[test]
fn environment_inner_binding_shadows_outer() {
    let outer = Environment::new(vec![("x".to_string(), Value::Bool(true))], None);
    let mut env = Environment::new(Vec::new(), Some(Box::new(outer)));
    env.add("x".to_string(), Value::Bool(false));
    assert_eq!(Value::Bool(false), *env.get("x").unwrap());
}

#[test]
fn eval_arity_message_renders_two_digit_counts() {
    let mut env = Environment::default();
    eval_expr(
        "(def wide (lambda (a b c d e f g h i j) (& a b c d e f g h i j)))",
        &mut env,
    )
    .unwrap();
    match eval_expr("(wide T)", &mut env) {
        Err(EvalErr::Eval(e)) => assert_eq!(
            "the number of arguments (10) is not the same as that of parameters (1)",
            e
        ),
        _ => panic!(),
    }
}
