//! Evaluation: tree-walks an expression against an `Environment` and
//! produces a runtime value or a semantic error.
//!
//! `spec_eval` states the semantics of every construct — the variable-arity
//! folds of `&` and `|`, the single-operand `^`, the short-circuiting `if`,
//! `def`'s binding in the innermost scope, and lambda application in a
//! fresh frame linked to the environment at the call site.  A lambda body
//! is evaluated under a recursion guard, so a self-application that would
//! never return is reported as an evaluation error instead; everything else
//! the executable evaluator does is proved to match `spec_eval` exactly.

use vstd::prelude::*;

use crate::environment::{env_define, frame_map, lookup, Environment};
use crate::parser::{clone_expr, clone_strings, expr_view, join_names, lemma_exprs_view_is_deep_view, spec_join_names, spec_print_expr, spec_print_op, Expr, ExprV, Operator};
use crate::text::usize_to_string;
use vstd::string::StringExecFns;

verus! {

/// A runtime value: a boolean, a primitive operator not yet applied, or a
/// lambda carrying its parameter names and its body.
#[derive(Debug, PartialEq, Eq)]
pub enum Value {
    Bool(bool),
    Operator(Operator),
    Lambda(Vec<String>, Expr),
}

/// The mathematical model of a runtime value.
pub enum ValueV {
    Bool(bool),
    Operator(Operator),
    Lambda(Seq<Seq<char>>, ExprV),
}

/// The model of a value.
pub open spec fn value_view(v: Value) -> ValueV {
    match v {
        Value::Bool(b) => ValueV::Bool(b),
        Value::Operator(op) => ValueV::Operator(op),
        Value::Lambda(params, body) => ValueV::Lambda(params.deep_view(), expr_view(body)),
    }
}

impl View for Value {
    type V = ValueV;

    open spec fn view(&self) -> ValueV {
        value_view(*self)
    }
}

impl DeepView for Value {
    type V = ValueV;

    open spec fn deep_view(&self) -> ValueV {
        value_view(*self)
    }
}

impl Clone for Value {
    /// A deep copy whose model is unchanged.
    fn clone(&self) -> (r: Self)
        ensures
            r@ == self@,
    {
        match self {
            Value::Bool(b) => Value::Bool(*b),
            Value::Operator(op) => Value::Operator(*op),
            Value::Lambda(params, body) => Value::Lambda(clone_strings(params), clone_expr(body)),
        }
    }
}

/// Evaluation failure, with a description of the offending construct.
#[derive(Debug)]
pub enum EvalErr {
    Eval(String),
}

/// The scope chain a running evaluation sees, innermost frame first.
pub type EnvV = Seq<Map<Seq<char>, ValueV>>;

/// The frame a lambda call builds: each parameter bound to the matching
/// operand value, a repeated parameter name taking the rightmost value.
pub open spec fn bindings_map(ps: Seq<Seq<char>>, vs: Seq<ValueV>) -> Map<Seq<char>, ValueV>
    decreases ps.len(),
{
    if ps.len() == 0 || vs.len() == 0 {
        Map::empty()
    } else {
        bindings_map(ps.drop_last(), vs.drop_last()).insert(ps.last(), vs.last())
    }
}

/// Whether every operand value is a boolean.
pub open spec fn all_bools(vs: Seq<ValueV>) -> bool {
    forall|i: int| 0 <= i < vs.len() ==> vs[i] is Bool
}

/// The booleans the operand values carry.
pub open spec fn bools_of(vs: Seq<ValueV>) -> Seq<bool> {
    vs.map(|i: int, v: ValueV| v->Bool_0)
}

/// Conjunction of a sequence of booleans; empty gives `true`.
pub open spec fn and_fold(bs: Seq<bool>) -> bool
    decreases bs.len(),
{
    if bs.len() == 0 {
        true
    } else {
        and_fold(bs.drop_last()) && bs.last()
    }
}

/// Disjunction of a sequence of booleans; empty gives `false`.
pub open spec fn or_fold(bs: Seq<bool>) -> bool
    decreases bs.len(),
{
    if bs.len() == 0 {
        false
    } else {
        or_fold(bs.drop_last()) || bs.last()
    }
}

/// The outcome of evaluating one expression: a value, a semantic error, or
/// exhaustion of the recursion guard.  Every outcome carries the
/// environment as the evaluation left it.
pub enum EvalOut {
    Value { v: ValueV, env: EnvV },
    Error { env: EnvV },
    Cutoff { env: EnvV },
}

/// The outcome of evaluating a list of operand expressions left to right,
/// threading the environment through.
pub enum ListOut {
    Values { vs: Seq<ValueV>, env: EnvV },
    Error { env: EnvV },
    Cutoff { env: EnvV },
}

/// The meaning of an expression: a tree walk against the scope chain.
///
/// `fuel` bounds how deeply lambda applications may nest; structural
/// recursion into subexpressions costs none of it.
pub open spec fn spec_eval(e: ExprV, env: EnvV, fuel: nat) -> EvalOut
    decreases fuel, e, 1int,
{
    match e {
        ExprV::Bool(b) => EvalOut::Value { v: ValueV::Bool(b), env },
        ExprV::Operator(op) => EvalOut::Value { v: ValueV::Operator(op), env },
        ExprV::Ident(name) => match lookup(env, name) {
            Some(v) => EvalOut::Value { v, env },
            None => EvalOut::Error { env },
        },
        ExprV::Lambda(params, body) => EvalOut::Value {
            v: ValueV::Lambda(params, *body),
            env,
        },
        ExprV::Def(name, sub) => match spec_eval(*sub, env, fuel) {
            EvalOut::Value { v, env: env1 } => EvalOut::Value {
                v,
                env: env_define(env1, name, v),
            },
            other => other,
        },
        ExprV::If(cond, thn, oth) => match spec_eval(*cond, env, fuel) {
            EvalOut::Value { v: ValueV::Bool(true), env: env1 } => spec_eval(*thn, env1, fuel),
            EvalOut::Value { v: ValueV::Bool(false), env: env1 } => spec_eval(*oth, env1, fuel),
            EvalOut::Value { v: _, env: env1 } => EvalOut::Error { env: env1 },
            other => other,
        },
        ExprV::Call(f, args) => match spec_eval(*f, env, fuel) {
            EvalOut::Value { v: fv, env: env1 } => spec_apply(fv, args, env1, fuel),
            other => other,
        },
    }
}

/// Application of an evaluated operator position to operand expressions.
///
/// A primitive operator evaluates all operands and requires each to be a
/// boolean; `^` additionally requires exactly one.  A lambda requires the
/// operand count to equal its parameter count, evaluates the operands in
/// the calling environment, and runs its body in a fresh frame of the
/// parameter bindings linked to the call site; the frame is discarded
/// afterward.  Applying any other value is an error.
pub open spec fn spec_apply(fv: ValueV, args: Seq<ExprV>, env: EnvV, fuel: nat) -> EvalOut
    decreases fuel, args, 3int,
{
    match fv {
        ValueV::Operator(op) => match spec_eval_list(args, env, fuel) {
            ListOut::Values { vs, env: env2 } => {
                if !all_bools(vs) {
                    EvalOut::Error { env: env2 }
                } else {
                    match op {
                        Operator::And => EvalOut::Value {
                            v: ValueV::Bool(and_fold(bools_of(vs))),
                            env: env2,
                        },
                        Operator::Or => EvalOut::Value {
                            v: ValueV::Bool(or_fold(bools_of(vs))),
                            env: env2,
                        },
                        Operator::Not => {
                            if vs.len() != 1 {
                                EvalOut::Error { env: env2 }
                            } else {
                                EvalOut::Value { v: ValueV::Bool(!bools_of(vs)[0]), env: env2 }
                            }
                        },
                    }
                }
            },
            ListOut::Error { env: env2 } => EvalOut::Error { env: env2 },
            ListOut::Cutoff { env: env2 } => EvalOut::Cutoff { env: env2 },
        },
        ValueV::Lambda(ps, body) => {
            if ps.len() != args.len() {
                EvalOut::Error { env }
            } else {
                match spec_eval_list(args, env, fuel) {
                    ListOut::Values { vs, env: env2 } => {
                        if fuel == 0 {
                            EvalOut::Cutoff { env: env2 }
                        } else {
                            match spec_eval(
                                body,
                                seq![bindings_map(ps, vs)] + env2,
                                (fuel - 1) as nat,
                            ) {
                                EvalOut::Value { v, env: env3 } => EvalOut::Value {
                                    v,
                                    env: env3.drop_first(),
                                },
                                EvalOut::Error { env: env3 } => EvalOut::Error {
                                    env: env3.drop_first(),
                                },
                                EvalOut::Cutoff { env: env3 } => EvalOut::Cutoff {
                                    env: env3.drop_first(),
                                },
                            }
                        }
                    },
                    ListOut::Error { env: env2 } => EvalOut::Error { env: env2 },
                    ListOut::Cutoff { env: env2 } => EvalOut::Cutoff { env: env2 },
                }
            }
        },
        ValueV::Bool(_) => EvalOut::Error { env },
    }
}

/// Left-to-right evaluation of operand expressions, each seeing the
/// environment the previous one left.
pub open spec fn spec_eval_list(es: Seq<ExprV>, env: EnvV, fuel: nat) -> ListOut
    decreases fuel, es, 2int,
{
    if es.len() == 0 {
        ListOut::Values { vs: Seq::empty(), env }
    } else {
        match spec_eval(es[0], env, fuel) {
            EvalOut::Value { v, env: env1 } => match spec_eval_list(
                es.drop_first(),
                env1,
                fuel,
            ) {
                ListOut::Values { vs, env: env2 } => ListOut::Values {
                    vs: seq![v] + vs,
                    env: env2,
                },
                other => other,
            },
            EvalOut::Error { env: env1 } => ListOut::Error { env: env1 },
            EvalOut::Cutoff { env: env1 } => ListOut::Cutoff { env: env1 },
        }
    }
}

/// The environment an outcome carries.
pub open spec fn out_env(o: EvalOut) -> EnvV {
    match o {
        EvalOut::Value { env, .. } => env,
        EvalOut::Error { env } => env,
        EvalOut::Cutoff { env } => env,
    }
}

/// The environment a list outcome carries.
pub open spec fn list_out_env(o: ListOut) -> EnvV {
    match o {
        ListOut::Values { env, .. } => env,
        ListOut::Error { env } => env,
        ListOut::Cutoff { env } => env,
    }
}

/// Evaluation never changes the depth of the scope chain: frames pushed for
/// lambda calls are always popped again.
pub proof fn lemma_eval_env_len(e: ExprV, env: EnvV, fuel: nat)
    requires
        env.len() > 0,
    ensures
        out_env(spec_eval(e, env, fuel)).len() == env.len(),
    decreases fuel, e, 1int,
{
    match e {
        ExprV::Bool(_) => {},
        ExprV::Operator(_) => {},
        ExprV::Ident(_) => {},
        ExprV::Lambda(_, _) => {},
        ExprV::Def(_, sub) => {
            lemma_eval_env_len(*sub, env, fuel);
        },
        ExprV::If(cond, thn, oth) => {
            lemma_eval_env_len(*cond, env, fuel);
            match spec_eval(*cond, env, fuel) {
                EvalOut::Value { v: ValueV::Bool(true), env: env1 } => {
                    lemma_eval_env_len(*thn, env1, fuel);
                },
                EvalOut::Value { v: ValueV::Bool(false), env: env1 } => {
                    lemma_eval_env_len(*oth, env1, fuel);
                },
                _ => {},
            }
        },
        ExprV::Call(f, args) => {
            lemma_eval_env_len(*f, env, fuel);
            match spec_eval(*f, env, fuel) {
                EvalOut::Value { v: fv, env: env1 } => {
                    lemma_apply_env_len(fv, args, env1, fuel);
                },
                _ => {},
            }
        },
    }
}

/// `spec_apply` also leaves the scope chain's depth unchanged.
pub proof fn lemma_apply_env_len(fv: ValueV, args: Seq<ExprV>, env: EnvV, fuel: nat)
    requires
        env.len() > 0,
    ensures
        out_env(spec_apply(fv, args, env, fuel)).len() == env.len(),
    decreases fuel, args, 3int,
{
    match fv {
        ValueV::Operator(_) => {
            lemma_eval_list_env_len(args, env, fuel);
        },
        ValueV::Lambda(ps, body) => {
            if ps.len() == args.len() {
                lemma_eval_list_env_len(args, env, fuel);
                match spec_eval_list(args, env, fuel) {
                    ListOut::Values { vs, env: env2 } => {
                        if fuel > 0 {
                            lemma_eval_env_len(
                                body,
                                seq![bindings_map(ps, vs)] + env2,
                                (fuel - 1) as nat,
                            );
                        }
                    },
                    _ => {},
                }
            }
        },
        ValueV::Bool(_) => {},
    }
}

/// `spec_eval_list` also leaves the scope chain's depth unchanged.
pub proof fn lemma_eval_list_env_len(es: Seq<ExprV>, env: EnvV, fuel: nat)
    requires
        env.len() > 0,
    ensures
        list_out_env(spec_eval_list(es, env, fuel)).len() == env.len(),
    decreases fuel, es, 2int,
{
    if es.len() > 0 {
        lemma_eval_env_len(es[0], env, fuel);
        match spec_eval(es[0], env, fuel) {
            EvalOut::Value { v, env: env1 } => {
                lemma_eval_list_env_len(es.drop_first(), env1, fuel);
            },
            _ => {},
        }
    }
}


/// How an executable evaluation must relate to the outcome `spec_eval`
/// prescribes: a specified value is returned exactly and a specified error
/// or guard exhaustion becomes `Err`, the environment ending up as the
/// outcome says in every case.
pub open spec fn eval_agrees(out: EvalOut, r: Result<Value, EvalErr>, env_after: EnvV) -> bool {
    match out {
        EvalOut::Value { v, env } => match r {
            Ok(rv) => rv@ == v && env_after == env,
            Err(_) => false,
        },
        EvalOut::Error { env } => r is Err && env_after == env,
        EvalOut::Cutoff { env } => r is Err && env_after == env,
    }
}

/// The list counterpart of `eval_agrees`.
pub open spec fn list_agrees(out: ListOut, r: Result<Vec<Value>, EvalErr>, env_after: EnvV) -> bool {
    match out {
        ListOut::Values { vs, env } => match r {
            Ok(vals) => vals.deep_view() == vs && vals@.len() == vs.len() && env_after == env,
            Err(_) => false,
        },
        ListOut::Error { env } => r is Err && env_after == env,
        ListOut::Cutoff { env } => r is Err && env_after == env,
    }
}

/// Decides whether every evaluated operand is a boolean.
fn all_bool_values(vals: &Vec<Value>) -> (r: bool)
    ensures
        r == all_bools(vals.deep_view()),
{
    let mut i: usize = 0;
    #[verifier::loop_isolation(false)]
    while i < vals.len()
        invariant
            i <= vals.len(),
            forall|j: int| 0 <= j < i ==> vals.deep_view()[j] is Bool,
        decreases vals.len() - i,
    {
        if !matches!(&vals[i], Value::Bool(_)) {
            proof {
                assert(!(vals.deep_view()[i as int] is Bool));
            }
            return false;
        }
        i = i + 1;
    }
    true
}

/// Folds the operand booleans with logical AND, starting from `true`.
fn fold_and(vals: &Vec<Value>) -> (r: bool)
    requires
        all_bools(vals.deep_view()),
    ensures
        r == and_fold(bools_of(vals.deep_view())),
{
    let ghost bs = bools_of(vals.deep_view());
    let mut acc = true;
    let mut i: usize = 0;
    proof {
        assert(bs.take(0) =~= Seq::<bool>::empty());
    }
    #[verifier::loop_isolation(false)]
    while i < vals.len()
        invariant
            i <= vals.len(),
            acc == and_fold(bs.take(i as int)),
        decreases vals.len() - i,
    {
        let b = match &vals[i] {
            Value::Bool(b) => *b,
            _ => {
                proof {
                    assert(vals.deep_view()[i as int] is Bool);
                    assert(false);
                }
                false
            },
        };
        proof {
            assert(bs.take(i + 1 as int).drop_last() =~= bs.take(i as int));
            assert(bs.take(i + 1 as int).last() == bs[i as int]);
            assert(bs[i as int] == b);
        }
        acc = acc && b;
        i = i + 1;
    }
    proof {
        assert(bs.take(vals.len() as int) =~= bs);
    }
    acc
}

/// Folds the operand booleans with logical OR, starting from `false`.
fn fold_or(vals: &Vec<Value>) -> (r: bool)
    requires
        all_bools(vals.deep_view()),
    ensures
        r == or_fold(bools_of(vals.deep_view())),
{
    let ghost bs = bools_of(vals.deep_view());
    let mut acc = false;
    let mut i: usize = 0;
    proof {
        assert(bs.take(0) =~= Seq::<bool>::empty());
    }
    #[verifier::loop_isolation(false)]
    while i < vals.len()
        invariant
            i <= vals.len(),
            acc == or_fold(bs.take(i as int)),
        decreases vals.len() - i,
    {
        let b = match &vals[i] {
            Value::Bool(b) => *b,
            _ => {
                proof {
                    assert(vals.deep_view()[i as int] is Bool);
                    assert(false);
                }
                false
            },
        };
        proof {
            assert(bs.take(i + 1 as int).drop_last() =~= bs.take(i as int));
            assert(bs.take(i + 1 as int).last() == bs[i as int]);
            assert(bs[i as int] == b);
        }
        acc = acc || b;
        i = i + 1;
    }
    proof {
        assert(bs.take(vals.len() as int) =~= bs);
    }
    acc
}

/// Evaluates the operand expressions left to right in the calling
/// environment, stopping at the first failure.
fn eval_operands(operands: &Vec<Expr>, env: &mut Environment, fuel: usize) -> (r: Result<
    Vec<Value>,
    EvalErr,
>)
    ensures
        list_agrees(spec_eval_list(operands.deep_view(), old(env)@, fuel as nat), r, final(env)@),
        r matches Ok(vals) ==> vals@.len() == operands@.len(),
    decreases fuel, operands@,
{
    let ghost es = operands.deep_view();
    let ghost env0 = env@;
    let mut vals: Vec<Value> = Vec::new();
    let mut i: usize = 0;
    proof {
        assert(es.skip(0) =~= es);
        assert(vals.deep_view() =~= Seq::<ValueV>::empty());
        match spec_eval_list(es, env0, fuel as nat) {
            ListOut::Values { vs, env: e2 } => {
                assert(vals.deep_view() + vs =~= vs);
            },
            _ => {},
        }
    }
    #[verifier::loop_isolation(false)]
    while i < operands.len()
        invariant
            i <= operands.len(),
            vals@.len() == i,
            spec_eval_list(es, env0, fuel as nat) == (match spec_eval_list(
                es.skip(i as int),
                env@,
                fuel as nat,
            ) {
                ListOut::Values { vs, env: e2 } => ListOut::Values {
                    vs: vals.deep_view() + vs,
                    env: e2,
                },
                ListOut::Error { env: e2 } => ListOut::Error { env: e2 },
                ListOut::Cutoff { env: e2 } => ListOut::Cutoff { env: e2 },
            }),
        decreases operands.len() - i,
    {
        proof {
            assert(es.skip(i as int)[0] == es[i as int]);
            assert(es.skip(i as int).drop_first() =~= es.skip(i + 1 as int));
        }
        let v = match eval_fuel(&operands[i], env, fuel) {
            Ok(v) => v,
            Err(e) => {
                return Err(e);
            },
        };
        let ghost old_vals = vals.deep_view();
        vals.push(v);
        proof {
            assert(vals.deep_view() =~= old_vals.push(v@));
            match spec_eval_list(es.skip(i + 1 as int), env@, fuel as nat) {
                ListOut::Values { vs, env: e2 } => {
                    assert(old_vals + (seq![v@] + vs) =~= vals.deep_view() + vs);
                },
                _ => {},
            }
        }
        i = i + 1;
    }
    proof {
        assert(es.skip(i as int) =~= Seq::<ExprV>::empty());
        match spec_eval_list(es.skip(i as int), env@, fuel as nat) {
            ListOut::Values { vs, env: e2 } => {
                assert(vals.deep_view() + vs =~= vals.deep_view());
            },
            _ => {},
        }
    }
    Ok(vals)
}

/// Evaluates one expression with `fuel` lambda applications left before the
/// recursion guard reports an error.
fn eval_fuel(expr: &Expr, env: &mut Environment, fuel: usize) -> (r: Result<Value, EvalErr>)
    ensures
        eval_agrees(spec_eval(expr@, old(env)@, fuel as nat), r, final(env)@),
    decreases fuel, *expr,
{
    match expr {
        Expr::Bool(b) => Ok(Value::Bool(*b)),
        Expr::Operator(op) => Ok(Value::Operator(*op)),
        Expr::Ident(name) => match env.get(name.as_str()) {
            Some(v) => Ok(v.clone()),
            None => {
                let mut m = "`".to_owned();
                m.append(name.as_str());
                m.append("` is not defined");
                Err(EvalErr::Eval(m))
            },
        },
        Expr::Lambda(params, body) => Ok(
            Value::Lambda(clone_strings(params), clone_expr(&**body)),
        ),
        Expr::Def(name, sub) => {
            let v = match eval_fuel(&**sub, env, fuel) {
                Ok(v) => v,
                Err(e) => {
                    return Err(e);
                },
            };
            let result = v.clone();
            env.add(name.clone(), v);
            Ok(result)
        },
        Expr::If(ifx) => {
            let c = match eval_fuel(&*ifx.cond, env, fuel) {
                Ok(v) => v,
                Err(e) => {
                    return Err(e);
                },
            };
            match c {
                Value::Bool(true) => eval_fuel(&*ifx.then_branch, env, fuel),
                Value::Bool(false) => eval_fuel(&*ifx.other, env, fuel),
                _ => Err(EvalErr::Eval("condition must be bool".to_owned())),
            }
        },
        Expr::Call(op_expr, operands) => {
            let fv = match eval_fuel(&**op_expr, env, fuel) {
                Ok(v) => v,
                Err(e) => {
                    return Err(e);
                },
            };
            proof {
                lemma_exprs_view_is_deep_view(*operands);
                assert(spec_eval(expr@, old(env)@, fuel as nat) == spec_apply(
                    fv@,
                    operands.deep_view(),
                    env@,
                    fuel as nat,
                ));
            }
            match fv {
                Value::Operator(op) => {
                    let vals = match eval_operands(operands, env, fuel) {
                        Ok(v) => v,
                        Err(e) => {
                            return Err(e);
                        },
                    };
                    if !all_bool_values(&vals) {
                        return Err(EvalErr::Eval("operand must be bool".to_owned()));
                    }
                    match op {
                        Operator::And => Ok(Value::Bool(fold_and(&vals))),
                        Operator::Or => Ok(Value::Bool(fold_or(&vals))),
                        Operator::Not => {
                            if vals.len() != 1 {
                                return Err(
                                    EvalErr::Eval(
                                        "the number of arguments of ^ must be 1".to_owned(),
                                    ),
                                );
                            }
                            let b = match &vals[0] {
                                Value::Bool(b) => *b,
                                _ => {
                                    proof {
                                        assert(vals.deep_view()[0] is Bool);
                                        assert(false);
                                    }
                                    false
                                },
                            };
                            proof {
                                assert(bools_of(vals.deep_view())[0] == b);
                            }
                            Ok(Value::Bool(!b))
                        },
                    }
                },
                Value::Lambda(params, body) => {
                    if params.len() != operands.len() {
                        let count_params = usize_to_string(params.len());
                        let count_operands = usize_to_string(operands.len());
                        let mut m = "the number of arguments (".to_owned();
                        m.append(count_params.as_str());
                        m.append(") is not the same as that of parameters (");
                        m.append(count_operands.as_str());
                        m.append(")");
                        return Err(EvalErr::Eval(m));
                    }
                    let vals = match eval_operands(operands, env, fuel) {
                        Ok(v) => v,
                        Err(e) => {
                            return Err(e);
                        },
                    };
                    if fuel == 0 {
                        return Err(EvalErr::Eval("evaluation is nested too deeply".to_owned()));
                    }
                    let ghost ps = params.deep_view();
                    let ghost vs = vals.deep_view();
                    let mut frame: Vec<(String, Value)> = Vec::new();
                    let mut i: usize = 0;
                    proof {
                        assert(ps.take(0) =~= Seq::<Seq<char>>::empty());
                        assert(vs.take(0) =~= Seq::<ValueV>::empty());
                        assert(frame@ =~= Seq::<(String, Value)>::empty());
                    }
                    #[verifier::loop_isolation(false)]
                    while i < params.len()
                        invariant
                            i <= params.len(),
                            vals@.len() == params@.len(),
                            frame_map(frame@) == bindings_map(ps.take(i as int), vs.take(i as int)),
                        decreases params.len() - i,
                    {
                        let name = params[i].clone();
                        let v = vals[i].clone();
                        let ghost old_frame = frame@;
                        frame.push((name, v));
                        proof {
                            assert(frame@.drop_last() =~= old_frame);
                            assert(ps.take(i + 1 as int).drop_last() =~= ps.take(i as int));
                            assert(vs.take(i + 1 as int).drop_last() =~= vs.take(i as int));
                            assert(ps.take(i + 1 as int).last() == ps[i as int]);
                            assert(vs.take(i + 1 as int).last() == vs[i as int]);
                        }
                        i = i + 1;
                    }
                    proof {
                        assert(ps.take(params@.len() as int) =~= ps);
                        assert(vs.take(params@.len() as int) =~= vs);
                        crate::environment::lemma_env_view_len(env);
                    }
                    let ghost env2 = env@;
                    env.enter_frame(frame);
                    let r = eval_fuel(&body, env, fuel - 1);
                    proof {
                        lemma_eval_env_len(
                            expr_view(body),
                            seq![bindings_map(ps, vs)] + env2,
                            (fuel - 1) as nat,
                        );
                    }
                    env.exit_frame();
                    r
                },
                Value::Bool(b) => {
                    let mut m = "`".to_owned();
                    m.append(if b {
                        "true"
                    } else {
                        "false"
                    });
                    m.append(" is not an operator`");
                    Err(EvalErr::Eval(m))
                },
            }
        },
    }
}

/// How deeply lambda applications may nest before `eval` reports an error
/// instead of recursing further.
pub const EVAL_DEPTH: usize = 256;

/// Evaluates an expression against the environment, returning its value or
/// the first semantic error; `def` bindings made on the way persist in the
/// environment either way.  Lambda applications deeper than `EVAL_DEPTH`
/// are reported as an error.
pub fn eval(expr: &Expr, env: &mut Environment) -> (r: Result<Value, EvalErr>)
    ensures
        eval_agrees(spec_eval(expr@, old(env)@, EVAL_DEPTH as nat), r, final(env)@),
{
    eval_fuel(expr, env, EVAL_DEPTH)
}


/// The printed form of a runtime value: `true`/`false` for booleans, the
/// operator's symbol behind a fixed prefix, and a lambda as its parameter
/// list and body source text.
pub open spec fn spec_print_value(v: ValueV) -> Seq<char> {
    match v {
        ValueV::Bool(b) => if b {
            "true"@
        } else {
            "false"@
        },
        ValueV::Operator(op) => "primitive operator: "@ + spec_print_op(op),
        ValueV::Lambda(params, body) => "lambda: ("@ + spec_join_names(params) + ") -> "@
            + spec_print_expr(body),
    }
}

impl Value {
    /// Renders the value as `spec_print_value` prescribes.
    pub fn to_string(&self) -> (r: String)
        ensures
            r@ == spec_print_value(self@),
    {
        match self {
            Value::Bool(b) => {
                if *b {
                    "true".to_owned()
                } else {
                    "false".to_owned()
                }
            },
            Value::Operator(op) => {
                let mut r = "primitive operator: ".to_owned();
                let sym = op.to_string();
                r.append(sym.as_str());
                r
            },
            Value::Lambda(params, body) => {
                let mut r = "lambda: (".to_owned();
                let names = join_names(params);
                r.append(names.as_str());
                r.append(") -> ");
                let b = body.to_string();
                r.append(b.as_str());
                proof {
                    assert(r@ =~= spec_print_value(self@));
                }
                r
            },
        }
    }
}

} // verus!
