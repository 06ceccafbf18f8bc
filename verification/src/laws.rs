//! General properties of the language, each proved against the
//! specification-level pipeline that the executable `tokenize`, `parse` and
//! `eval` are verified to follow.

use vstd::prelude::*;

use crate::environment::{env_define, lookup};
use crate::evaluator::{
    all_bools, and_fold, bools_of, lemma_eval_env_len, or_fold, spec_apply, spec_eval,
    spec_eval_list, EnvV, EvalOut, ListOut, ValueV,
};
use crate::parser::{spec_parse_expr, spec_print_expr, ExprV, Operator};
use crate::tokenizer::{spec_tokenize, TokenV};

verus! {

/// Round trip: printing a literal boolean, tokenizing and parsing the text
/// back, and evaluating the tree reproduces the boolean, in any environment.
pub proof fn lemma_bool_round_trip(b: bool, env: EnvV, fuel: nat)
    ensures
        spec_tokenize(spec_print_expr(ExprV::Bool(b))) == (Ok::<Seq<TokenV>, Seq<char>>(
            seq![(if b { TokenV::True } else { TokenV::False })],
        )),
        spec_parse_expr(seq![(if b { TokenV::True } else { TokenV::False })], 0) == (Some(
            (ExprV::Bool(b), 1 as nat),
        )),
        spec_eval(ExprV::Bool(b), env, fuel) == (EvalOut::Value { v: ValueV::Bool(b), env }),
{
    let text = spec_print_expr(ExprV::Bool(b));
    let c = if b {
        'T'
    } else {
        'F'
    };
    let tok = if b {
        TokenV::True
    } else {
        TokenV::False
    };
    assert(text =~= seq![c]);
    assert(!crate::text::char_is_space(c));
    assert(text.drop_first() =~= Seq::<char>::empty());
    assert(crate::tokenizer::spec_classify(seq![c]) == Some(tok));
    assert(crate::tokenizer::spec_scan(Seq::<char>::empty(), seq![c]) == Ok::<
        Seq<TokenV>,
        Seq<char>,
    >(seq![tok]));
    assert(spec_tokenize(text) == Ok::<Seq<TokenV>, Seq<char>>(seq![tok]));
}

/// Unfolds one call step: when the operator position evaluates to `fv`, the
/// whole call means `spec_apply` of `fv` to the operand list.
proof fn lemma_call_applies(f: ExprV, fv: ValueV, args: Seq<ExprV>, env: EnvV, env1: EnvV, fuel: nat)
    requires
        spec_eval(f, env, fuel) == (EvalOut::Value { v: fv, env: env1 }),
    ensures
        spec_eval(ExprV::Call(Box::new(f), args), env, fuel) == spec_apply(fv, args, env1, fuel),
{
    let callv = ExprV::Call(Box::new(f), args);
    assert(*callv->Call_0 == f);
    assert(callv->Call_1 == args);
}

/// A primitive operator in operator position applies itself.
proof fn lemma_op_call_applies(op: Operator, args: Seq<ExprV>, env: EnvV, fuel: nat)
    ensures
        spec_eval(ExprV::Call(Box::new(ExprV::Operator(op)), args), env, fuel) == spec_apply(
            ValueV::Operator(op),
            args,
            env,
            fuel,
        ),
{
    assert(spec_eval(ExprV::Operator(op), env, fuel) == (EvalOut::Value {
        v: ValueV::Operator(op),
        env,
    }));
    lemma_call_applies(ExprV::Operator(op), ValueV::Operator(op), args, env, env, fuel);
}

/// `&` applied to no operands is `true` and `|` applied to no operands is
/// `false`: the two folds start from their identity elements.
pub proof fn lemma_and_or_identity(env: EnvV, fuel: nat)
    ensures
        spec_eval(
            ExprV::Call(Box::new(ExprV::Operator(Operator::And)), Seq::empty()),
            env,
            fuel,
        ) == (EvalOut::Value { v: ValueV::Bool(true), env }),
        spec_eval(
            ExprV::Call(Box::new(ExprV::Operator(Operator::Or)), Seq::empty()),
            env,
            fuel,
        ) == (EvalOut::Value { v: ValueV::Bool(false), env }),
{
    lemma_op_call_applies(Operator::And, Seq::empty(), env, fuel);
    lemma_op_call_applies(Operator::Or, Seq::empty(), env, fuel);
    assert(spec_eval_list(Seq::<ExprV>::empty(), env, fuel) == ListOut::Values {
        vs: Seq::<ValueV>::empty(),
        env,
    });
    assert(bools_of(Seq::<ValueV>::empty()) =~= Seq::<bool>::empty());
    assert(and_fold(Seq::<bool>::empty()));
    assert(!or_fold(Seq::<bool>::empty()));
    assert(spec_apply(ValueV::Operator(Operator::And), Seq::empty(), env, fuel) == (EvalOut::Value {
        v: ValueV::Bool(true),
        env,
    }));
    assert(spec_apply(ValueV::Operator(Operator::Or), Seq::empty(), env, fuel) == (EvalOut::Value {
        v: ValueV::Bool(false),
        env,
    }));
}

/// Evaluating one operand list after another, with the environment threaded
/// through, gives the same values as evaluating the concatenated list.
proof fn lemma_eval_list_append(es1: Seq<ExprV>, es2: Seq<ExprV>, env: EnvV, fuel: nat)
    ensures
        spec_eval_list(es1 + es2, env, fuel) == (match spec_eval_list(es1, env, fuel) {
            ListOut::Values { vs: vs1, env: env1 } => match spec_eval_list(es2, env1, fuel) {
                ListOut::Values { vs: vs2, env: env2 } => ListOut::Values {
                    vs: vs1 + vs2,
                    env: env2,
                },
                other => other,
            },
            other => other,
        }),
    decreases es1.len(),
{
    if es1.len() == 0 {
        assert(es1 + es2 =~= es2);
        match spec_eval_list(es2, env, fuel) {
            ListOut::Values { vs: vs2, env: env2 } => {
                assert(Seq::<ValueV>::empty() + vs2 =~= vs2);
            },
            _ => {},
        }
    } else {
        assert((es1 + es2)[0] == es1[0]);
        assert((es1 + es2).drop_first() =~= es1.drop_first() + es2);
        match spec_eval(es1[0], env, fuel) {
            EvalOut::Value { v, env: envx } => {
                lemma_eval_list_append(es1.drop_first(), es2, envx, fuel);
                match spec_eval_list(es1.drop_first(), envx, fuel) {
                    ListOut::Values { vs: rest1, env: env1 } => {
                        match spec_eval_list(es2, env1, fuel) {
                            ListOut::Values { vs: vs2, env: env2 } => {
                                assert(seq![v] + (rest1 + vs2) =~= (seq![v] + rest1) + vs2);
                            },
                            _ => {},
                        }
                    },
                    _ => {},
                }
            },
            _ => {},
        }
    }
}

/// Conjunction distributes over concatenation of boolean sequences.
proof fn lemma_and_fold_append(bs1: Seq<bool>, bs2: Seq<bool>)
    ensures
        and_fold(bs1 + bs2) == (and_fold(bs1) && and_fold(bs2)),
    decreases bs2.len(),
{
    if bs2.len() == 0 {
        assert(bs1 + bs2 =~= bs1);
    } else {
        lemma_and_fold_append(bs1, bs2.drop_last());
        assert((bs1 + bs2).drop_last() =~= bs1 + bs2.drop_last());
        assert((bs1 + bs2).last() == bs2.last());
    }
}

/// Disjunction distributes over concatenation of boolean sequences.
proof fn lemma_or_fold_append(bs1: Seq<bool>, bs2: Seq<bool>)
    ensures
        or_fold(bs1 + bs2) == (or_fold(bs1) || or_fold(bs2)),
    decreases bs2.len(),
{
    if bs2.len() == 0 {
        assert(bs1 + bs2 =~= bs1);
    } else {
        lemma_or_fold_append(bs1, bs2.drop_last());
        assert((bs1 + bs2).drop_last() =~= bs1 + bs2.drop_last());
        assert((bs1 + bs2).last() == bs2.last());
    }
}

/// `&` is associative: if one AND call over `es1` yields `b1` and a second
/// AND call over `es2`, run in the environment the first one left, yields
/// `b2`, then a single AND call over the concatenated operand list yields
/// `b1 && b2` and leaves the same final environment.
pub proof fn lemma_and_associative(
    es1: Seq<ExprV>,
    es2: Seq<ExprV>,
    b1: bool,
    b2: bool,
    env: EnvV,
    env1: EnvV,
    env2: EnvV,
    fuel: nat,
)
    requires
        spec_eval(ExprV::Call(Box::new(ExprV::Operator(Operator::And)), es1), env, fuel)
            == (EvalOut::Value { v: ValueV::Bool(b1), env: env1 }),
        spec_eval(ExprV::Call(Box::new(ExprV::Operator(Operator::And)), es2), env1, fuel)
            == (EvalOut::Value { v: ValueV::Bool(b2), env: env2 }),
    ensures
        spec_eval(ExprV::Call(Box::new(ExprV::Operator(Operator::And)), es1 + es2), env, fuel)
            == (EvalOut::Value { v: ValueV::Bool(b1 && b2), env: env2 }),
{
    lemma_op_call_applies(Operator::And, es1, env, fuel);
    lemma_op_call_applies(Operator::And, es2, env1, fuel);
    lemma_op_call_applies(Operator::And, es1 + es2, env, fuel);
    lemma_eval_list_append(es1, es2, env, fuel);
    assert(spec_apply(ValueV::Operator(Operator::And), es1, env, fuel) == (EvalOut::Value {
        v: ValueV::Bool(b1),
        env: env1,
    }));
    assert(spec_apply(ValueV::Operator(Operator::And), es2, env1, fuel) == (EvalOut::Value {
        v: ValueV::Bool(b2),
        env: env2,
    }));
    match spec_eval_list(es1, env, fuel) {
        ListOut::Values { vs: vs1, env: env1x } => {
            match spec_eval_list(es2, env1x, fuel) {
                ListOut::Values { vs: vs2, env: env2x } => {
                    assert(all_bools(vs1 + vs2)) by {
                        assert(forall|i: int|
                            0 <= i < vs1.len() ==> (vs1 + vs2)[i] == vs1[i]);
                        assert(forall|i: int|
                            vs1.len() <= i < vs1.len() + vs2.len() ==> (vs1 + vs2)[i] == vs2[
                                i - vs1.len()
                            ]);
                    }
                    assert(bools_of(vs1 + vs2) =~= bools_of(vs1) + bools_of(vs2));
                    lemma_and_fold_append(bools_of(vs1), bools_of(vs2));
                },
                _ => {
                    assert(false);
                },
            }
        },
        _ => {
            assert(false);
        },
    }
}

/// `|` is associative, in the same sense as `&`.
pub proof fn lemma_or_associative(
    es1: Seq<ExprV>,
    es2: Seq<ExprV>,
    b1: bool,
    b2: bool,
    env: EnvV,
    env1: EnvV,
    env2: EnvV,
    fuel: nat,
)
    requires
        spec_eval(ExprV::Call(Box::new(ExprV::Operator(Operator::Or)), es1), env, fuel)
            == (EvalOut::Value { v: ValueV::Bool(b1), env: env1 }),
        spec_eval(ExprV::Call(Box::new(ExprV::Operator(Operator::Or)), es2), env1, fuel)
            == (EvalOut::Value { v: ValueV::Bool(b2), env: env2 }),
    ensures
        spec_eval(ExprV::Call(Box::new(ExprV::Operator(Operator::Or)), es1 + es2), env, fuel)
            == (EvalOut::Value { v: ValueV::Bool(b1 || b2), env: env2 }),
{
    lemma_op_call_applies(Operator::Or, es1, env, fuel);
    lemma_op_call_applies(Operator::Or, es2, env1, fuel);
    lemma_op_call_applies(Operator::Or, es1 + es2, env, fuel);
    lemma_eval_list_append(es1, es2, env, fuel);
    assert(spec_apply(ValueV::Operator(Operator::Or), es1, env, fuel) == (EvalOut::Value {
        v: ValueV::Bool(b1),
        env: env1,
    }));
    assert(spec_apply(ValueV::Operator(Operator::Or), es2, env1, fuel) == (EvalOut::Value {
        v: ValueV::Bool(b2),
        env: env2,
    }));
    match spec_eval_list(es1, env, fuel) {
        ListOut::Values { vs: vs1, env: env1x } => {
            match spec_eval_list(es2, env1x, fuel) {
                ListOut::Values { vs: vs2, env: env2x } => {
                    assert(all_bools(vs1 + vs2)) by {
                        assert(forall|i: int|
                            0 <= i < vs1.len() ==> (vs1 + vs2)[i] == vs1[i]);
                        assert(forall|i: int|
                            vs1.len() <= i < vs1.len() + vs2.len() ==> (vs1 + vs2)[i] == vs2[
                                i - vs1.len()
                            ]);
                    }
                    assert(bools_of(vs1 + vs2) =~= bools_of(vs1) + bools_of(vs2));
                    lemma_or_fold_append(bools_of(vs1), bools_of(vs2));
                },
                _ => {
                    assert(false);
                },
            }
        },
        _ => {
            assert(false);
        },
    }
}

/// One application of `^` to a boolean-valued expression negates it.
pub proof fn lemma_not_negates(x: ExprV, b: bool, env: EnvV, env1: EnvV, fuel: nat)
    requires
        spec_eval(x, env, fuel) == (EvalOut::Value { v: ValueV::Bool(b), env: env1 }),
    ensures
        spec_eval(ExprV::Call(Box::new(ExprV::Operator(Operator::Not)), seq![x]), env, fuel)
            == (EvalOut::Value { v: ValueV::Bool(!b), env: env1 }),
{
    lemma_op_call_applies(Operator::Not, seq![x], env, fuel);
    let es = seq![x];
    assert(es[0] == x);
    assert(es.drop_first() =~= Seq::<ExprV>::empty());
    assert(spec_eval_list(Seq::<ExprV>::empty(), env1, fuel) == ListOut::Values {
        vs: Seq::<ValueV>::empty(),
        env: env1,
    });
    let vs = seq![ValueV::Bool(b)];
    assert(seq![ValueV::Bool(b)] + Seq::<ValueV>::empty() =~= vs);
    assert(spec_eval_list(es, env, fuel) == ListOut::Values { vs, env: env1 });
    assert(bools_of(vs)[0] == b);
    assert(all_bools(vs));
}

/// `^` is self-inverting: applying it twice to any boolean-valued
/// expression reproduces that expression's value and final environment.
pub proof fn lemma_not_involutive(x: ExprV, b: bool, env: EnvV, env1: EnvV, fuel: nat)
    requires
        spec_eval(x, env, fuel) == (EvalOut::Value { v: ValueV::Bool(b), env: env1 }),
    ensures
        spec_eval(
            ExprV::Call(
                Box::new(ExprV::Operator(Operator::Not)),
                seq![ExprV::Call(Box::new(ExprV::Operator(Operator::Not)), seq![x])],
            ),
            env,
            fuel,
        ) == (EvalOut::Value { v: ValueV::Bool(b), env: env1 }),
{
    lemma_not_negates(x, b, env, env1, fuel);
    lemma_not_negates(
        ExprV::Call(Box::new(ExprV::Operator(Operator::Not)), seq![x]),
        !b,
        env,
        env1,
        fuel,
    );
}

/// `if` is short-circuiting: when the condition selects the first branch,
/// the other branch is never consulted — any expression, however malformed
/// its meaning, can stand there without changing the outcome, which is
/// exactly the evaluation of the selected branch.
pub proof fn lemma_if_short_circuit(
    cond: ExprV,
    thn: ExprV,
    oth1: ExprV,
    oth2: ExprV,
    env: EnvV,
    env1: EnvV,
    fuel: nat,
)
    requires
        spec_eval(cond, env, fuel) == (EvalOut::Value { v: ValueV::Bool(true), env: env1 }),
    ensures
        spec_eval(ExprV::If(Box::new(cond), Box::new(thn), Box::new(oth1)), env, fuel)
            == spec_eval(ExprV::If(Box::new(cond), Box::new(thn), Box::new(oth2)), env, fuel),
        spec_eval(ExprV::If(Box::new(cond), Box::new(thn), Box::new(oth1)), env, fuel)
            == spec_eval(thn, env1, fuel),
{
}

/// `def` both yields the bound value and makes it visible: after evaluating
/// `(def name sub)`, looking `name` up in the resulting environment finds
/// exactly the value `sub` evaluated to.
pub proof fn lemma_def_binds(name: Seq<char>, sub: ExprV, v: ValueV, env: EnvV, env1: EnvV, fuel: nat)
    requires
        env.len() > 0,
        spec_eval(sub, env, fuel) == (EvalOut::Value { v, env: env1 }),
    ensures
        spec_eval(ExprV::Def(name, Box::new(sub)), env, fuel) == (EvalOut::Value {
            v,
            env: env_define(env1, name, v),
        }),
        lookup(env_define(env1, name, v), name) == (Some(v)),
        spec_eval(ExprV::Ident(name), env_define(env1, name, v), fuel) == (EvalOut::Value {
            v,
            env: env_define(env1, name, v),
        }),
{
    lemma_eval_env_len(sub, env, fuel);
    assert(env_define(env1, name, v)[0] == env1[0].insert(name, v));
    assert(env_define(env1, name, v)[0].contains_key(name));
}

/// Redefinition overwrites: binding a name twice in the innermost frame
/// leaves exactly the environment the second binding alone would.
pub proof fn lemma_def_overwrites(env: EnvV, name: Seq<char>, v1: ValueV, v2: ValueV)
    requires
        env.len() > 0,
    ensures
        env_define(env_define(env, name, v1), name, v2) == env_define(env, name, v2),
{
    assert(env[0].insert(name, v1).insert(name, v2) =~= env[0].insert(name, v2));
    assert(env_define(env_define(env, name, v1), name, v2) =~= env_define(env, name, v2));
}

/// A lambda call with the wrong number of operands is an arity error, found
/// before any operand is evaluated: the environment is exactly the one the
/// operator position's evaluation left.
pub proof fn lemma_lambda_arity_mismatch(
    f: ExprV,
    ps: Seq<Seq<char>>,
    body: ExprV,
    args: Seq<ExprV>,
    env: EnvV,
    env1: EnvV,
    fuel: nat,
)
    requires
        spec_eval(f, env, fuel) == (EvalOut::Value { v: ValueV::Lambda(ps, body), env: env1 }),
        ps.len() != args.len(),
    ensures
        spec_eval(ExprV::Call(Box::new(f), args), env, fuel) == (EvalOut::Error { env: env1 }),
{
    lemma_call_applies(f, ValueV::Lambda(ps, body), args, env, env1, fuel);
}

} // verus!
