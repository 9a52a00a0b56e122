use vstd::prelude::*;

use crate::parse::parsers::expression::{
    expr_models, lemma_expr_models_index, lemma_expr_models_len, ExprModel, Expression,
};
use crate::run::context::{Context, ContextModel};
use crate::run::error::{RuntimeErrorModel, SplashRuntimeError};
use crate::run::evaluate::{evaluate, spec_eval, spec_eval_list, EvalOutcome, ListOutcome};
use crate::run::value::{value_models, Value, ValueModel};

verus! {

/// The outcome of evaluating a condition: a boolean and the context after,
/// or a failure.
pub enum PredOutcome {
    Done(bool, ContextModel),
    Fail(RuntimeErrorModel, ContextModel),
}

/// The meaning of a condition: its expression must evaluate to a boolean
/// value; any other value, or no value, is a failure.
pub open spec fn spec_eval_predicate(e: ExprModel, m: ContextModel, fuel: nat) -> PredOutcome
    decreases fuel, 1int,
{
    match spec_eval(e, m, fuel) {
        EvalOutcome::Done(Some(ValueModel::Boolean(b)), m1) => PredOutcome::Done(b, m1),
        EvalOutcome::Done(Some(v), m1) => PredOutcome::Fail(
            RuntimeErrorModel::InvalidPredicate(v),
            m1,
        ),
        EvalOutcome::Done(None, m1) => PredOutcome::Fail(RuntimeErrorModel::NoValue, m1),
        EvalOutcome::Fail(er, m1) => PredOutcome::Fail(er, m1),
    }
}

/// Evaluates a condition to a boolean; any other result is a failure.
pub fn evaluate_predicate(expression: &Expression, context: &mut Context, fuel: u64) -> (r: Result<
    bool,
    SplashRuntimeError,
>)
    ensures
        match spec_eval_predicate(expression@, old(context)@, fuel as nat) {
            PredOutcome::Done(b, m) => r matches Ok(rb) && rb == b && final(context)@ == m,
            PredOutcome::Fail(e, m) => r matches Err(er) && er@ == e && final(context)@ == m,
        },
    decreases fuel, 3int,
{
    match evaluate(expression, context, fuel) {
        Ok(Some(v)) => {
            match v {
                Value::Boolean(b) => Ok(b),
                v => Err(SplashRuntimeError::InvalidPredicate(v)),
            }
        }
        Ok(None) => Err(SplashRuntimeError::NoValue),
        Err(e) => Err(e),
    }
}

/// Evaluates expressions left to right, requiring each to produce a value.
pub fn evaluate_values(expressions: &Vec<Expression>, context: &mut Context, fuel: u64) -> (r:
    Result<Vec<Value>, SplashRuntimeError>)
    ensures
        match spec_eval_list(expr_models(expressions@), old(context)@, fuel as nat) {
            ListOutcome::Done(vals, m) => r matches Ok(vs) && value_models(vs@) == vals
                && final(context)@ == m,
            ListOutcome::Fail(e, m) => r matches Err(er) && er@ == e && final(context)@ == m,
        },
    decreases fuel, 0int,
{
    proof {
        lemma_expr_models_len(expressions@);
    }
    let ghost full = expr_models(expressions@);
    let ghost m0 = old(context)@;
    let mut out: Vec<Value> = Vec::new();
    let mut f: u64 = fuel;
    let mut i: usize = 0;
    proof {
        assert(full.skip(0) =~= full);
    }
    while f > 0 && i < expressions.len()
        invariant
            f <= fuel,
            i <= expressions@.len(),
            full.len() == expressions@.len(),
            match spec_eval_list(full.skip(i as int), context@, f as nat) {
                ListOutcome::Done(vs, m) => spec_eval_list(full, m0, fuel as nat)
                    == ListOutcome::Done(value_models(out@) + vs, m),
                ListOutcome::Fail(e, m) => spec_eval_list(full, m0, fuel as nat)
                    == ListOutcome::Fail(e, m),
            },
        decreases expressions@.len() - i,
    {
        let ghost ctx_before = context@;
        let ghost f_before = f as nat;
        proof {
            lemma_expr_models_index(expressions@, i as int);
            assert(full.skip(i as int).len() == full.len() - i);
            assert(full.skip(i as int)[0] == full[i as int]);
        }
        match evaluate(&expressions[i], context, f - 1) {
            Err(e) => {
                proof {
                    assert(spec_eval_list(full.skip(i as int), ctx_before, f_before)
                        == ListOutcome::Fail(e@, context@));
                }
                return Err(e);
            }
            Ok(None) => {
                proof {
                    assert(spec_eval_list(full.skip(i as int), ctx_before, f_before)
                        == ListOutcome::Fail(RuntimeErrorModel::NoValue, context@));
                }
                return Err(SplashRuntimeError::NoValue);
            }
            Ok(Some(v)) => {
                let ghost vm = v@;
                let ghost out0 = out@;
                out.push(v);
                proof {
                    assert(out@.drop_last() =~= out0);
                    assert(value_models(out@) =~= value_models(out0).push(vm));
                    assert(full.skip(i as int).drop_first() =~= full.skip(i + 1));
                    let inner = spec_eval_list(full.skip(i + 1), context@, (f_before - 1) as nat);
                    assert(spec_eval_list(full.skip(i as int), ctx_before, f_before) == match inner {
                        ListOutcome::Done(vs, m) => ListOutcome::Done(seq![vm] + vs, m),
                        ListOutcome::Fail(e, m) => ListOutcome::Fail(e, m),
                    });
                    match inner {
                        ListOutcome::Done(vs, m) => {
                            assert(value_models(out@) + vs =~= value_models(out0) + (seq![vm]
                                + vs));
                        }
                        ListOutcome::Fail(_, _) => {}
                    }
                }
            }
        }
        f = f - 1;
        i = i + 1;
    }
    if f == 0 {
        proof {
            assert(spec_eval_list(full.skip(i as int), context@, 0) == ListOutcome::Fail(
                RuntimeErrorModel::OutOfFuel,
                context@,
            ));
        }
        return Err(SplashRuntimeError::OutOfFuel);
    }
    proof {
        assert(i == expressions@.len());
        assert(full.skip(i as int).len() == 0);
        assert(spec_eval_list(full.skip(i as int), context@, f as nat) == ListOutcome::Done(
            Seq::<ValueModel>::empty(),
            context@,
        ));
        assert(value_models(out@) + Seq::<ValueModel>::empty() =~= value_models(out@));
    }
    Ok(out)
}

} // verus!
