use vstd::prelude::*;

use crate::parse::parsers::expression::{
    expr_model, expr_models, lemma_expr_models_index, lemma_expr_models_len, ExprModel, Expression,
};
use crate::parse::parsers::operator::Operator;
use crate::run::block::{run, spec_run_block, BlockValue};
use crate::run::builtin;
use crate::run::builtin::{
    eval_result_model, op_name, spec_and, spec_compare, spec_divide, spec_equal, spec_length,
    spec_minus, spec_modulo, spec_not, spec_not_equal, spec_or, spec_plus, spec_pop, spec_print,
    spec_push, spec_range, spec_string, spec_times, EvalResult, EvalResultModel,
};
use crate::run::context::{
    ctx_init_var, ctx_lookup_fun, ctx_lookup_var, ctx_pop, ctx_print, ctx_push, Context,
    ContextModel,
};
use crate::run::error::{RuntimeErrorModel, SplashRuntimeError};
use crate::run::function::{Builtin, Function, FunctionModel};
use crate::run::value::{
    lemma_value_models_index, lemma_value_models_len, literal_value, value_models, Value,
    ValueModel,
};
use crate::utils::{bytes_models, copy_bytes, lemma_bytes_models_index, lemma_bytes_models_len};

verus! {

/// The outcome of evaluating one expression: an optional value and the
/// context after, or a failure and the context at the point of failure.
pub enum EvalOutcome {
    Done(Option<ValueModel>, ContextModel),
    Fail(RuntimeErrorModel, ContextModel),
}

/// The outcome of evaluating a sequence of expressions left to right, each
/// required to produce a value.
pub enum ListOutcome {
    Done(Seq<ValueModel>, ContextModel),
    Fail(RuntimeErrorModel, ContextModel),
}

/// A pure operator or built-in result, attached to an unchanged context.
pub open spec fn lift_result(r: EvalResultModel, m: ContextModel) -> EvalOutcome {
    match r {
        Ok(v) => EvalOutcome::Done(v, m),
        Err(e) => EvalOutcome::Fail(e, m),
    }
}

/// The meaning of an operator applied to already-evaluated operand values:
/// one value for the unary operator, two for a binary one, with the fixed
/// semantics of each operator.
pub open spec fn spec_apply_operator(op: Operator, vals: Seq<ValueModel>) -> EvalResultModel {
    match op {
        Operator::Not => if vals.len() != 1 {
            Err(RuntimeErrorModel::InvalidSignature(op_name(op), 1, vals.len() as int))
        } else {
            spec_not(vals[0])
        },
        _ => if vals.len() != 2 {
            Err(RuntimeErrorModel::InvalidSignature(op_name(op), 2, vals.len() as int))
        } else {
            match op {
                Operator::Plus => spec_plus(vals[0], vals[1]),
                Operator::Minus => spec_minus(vals[0], vals[1]),
                Operator::Times => spec_times(vals[0], vals[1]),
                Operator::Divide => spec_divide(vals[0], vals[1]),
                Operator::Modulo => spec_modulo(vals[0], vals[1]),
                Operator::Equal => spec_equal(vals[0], vals[1]),
                Operator::NotEqual => spec_not_equal(vals[0], vals[1]),
                Operator::And => spec_and(vals[0], vals[1]),
                Operator::Or => spec_or(vals[0], vals[1]),
                _ => spec_compare(op, vals[0], vals[1]),
            }
        },
    }
}

/// The meaning of one built-in call: `print` appends a line to the output;
/// the others leave the context unchanged.
pub open spec fn spec_builtin_call(b: Builtin, args: Seq<ValueModel>, m: ContextModel)
    -> EvalOutcome {
    match b {
        Builtin::Print => match spec_print(args) {
            Ok(line) => EvalOutcome::Done(None, ctx_print(m, line)),
            Err(e) => EvalOutcome::Fail(e, m),
        },
        Builtin::String => lift_result(spec_string(args), m),
        Builtin::Length => lift_result(spec_length(args), m),
        Builtin::Push => lift_result(spec_push(args), m),
        Builtin::Pop => lift_result(spec_pop(args), m),
        Builtin::Range => lift_result(spec_range(args), m),
    }
}

/// The context in which a custom function's body runs: the caller's scope
/// stack with one fresh scope on top binding each parameter, in order, to
/// the corresponding argument value.
pub open spec fn bind_args(m: ContextModel, params: Seq<Seq<u8>>, args: Seq<ValueModel>)
    -> ContextModel
    recommends
        params.len() == args.len(),
    decreases params.len(),
{
    if params.len() == 0 {
        m
    } else {
        ctx_init_var(
            bind_args(m, params.drop_last(), args.drop_last()),
            params.last(),
            args.last(),
        )
    }
}

/// The meaning of one expression, evaluated in a context with a step
/// budget. Every recursive step spends one unit of fuel; a run that would
/// go deeper than the budget fails with the fuel failure, and a larger
/// budget extends the run.
pub open spec fn spec_eval(e: ExprModel, m: ContextModel, fuel: nat) -> EvalOutcome
    decreases fuel, 0int,
{
    if fuel == 0 {
        EvalOutcome::Fail(RuntimeErrorModel::OutOfFuel, m)
    } else {
        match e {
            ExprModel::Atom(a) => match a {
                crate::parse::parsers::atom::AtomModel::Literal(l) => EvalOutcome::Done(
                    Some(literal_value(l)),
                    m,
                ),
                crate::parse::parsers::atom::AtomModel::Identifier(name) => match ctx_lookup_var(
                    m,
                    name,
                ) {
                    Some(v) => EvalOutcome::Done(Some(v), m),
                    None => EvalOutcome::Fail(RuntimeErrorModel::NotDefined(name), m),
                },
            },
            ExprModel::Operation(op, operands) => match spec_eval_list(
                operands,
                m,
                (fuel - 1) as nat,
            ) {
                ListOutcome::Done(vals, m1) => lift_result(spec_apply_operator(op, vals), m1),
                ListOutcome::Fail(e, m1) => EvalOutcome::Fail(e, m1),
            },
            ExprModel::Function(name, args) => match ctx_lookup_fun(m, name) {
                None => EvalOutcome::Fail(RuntimeErrorModel::NotDefined(name), m),
                Some(f) => match spec_eval_list(args, m, (fuel - 1) as nat) {
                    ListOutcome::Done(vals, m1) => spec_call(name, f, vals, m1, (fuel - 1) as nat),
                    ListOutcome::Fail(e, m1) => EvalOutcome::Fail(e, m1),
                },
            },
            ExprModel::List(elems) => match spec_eval_list(elems, m, (fuel - 1) as nat) {
                ListOutcome::Done(vals, m1) => EvalOutcome::Done(Some(ValueModel::List(vals)), m1),
                ListOutcome::Fail(e, m1) => EvalOutcome::Fail(e, m1),
            },
            ExprModel::Index(name, idx) => match ctx_lookup_var(m, name) {
                None => EvalOutcome::Fail(RuntimeErrorModel::NotDefined(name), m),
                Some(lv) => if idx.len() != 1 {
                    EvalOutcome::Fail(RuntimeErrorModel::NoValue, m)
                } else {
                    match spec_eval(idx[0], m, (fuel - 1) as nat) {
                        EvalOutcome::Fail(e, m1) => EvalOutcome::Fail(e, m1),
                        EvalOutcome::Done(None, m1) => EvalOutcome::Fail(
                            RuntimeErrorModel::NoValue,
                            m1,
                        ),
                        EvalOutcome::Done(Some(iv), m1) => match lv {
                            ValueModel::List(items) => match iv {
                                ValueModel::Number(n) => if 0 <= n < items.len() {
                                    EvalOutcome::Done(Some(items[n]), m1)
                                } else {
                                    EvalOutcome::Fail(
                                        RuntimeErrorModel::OutOfRange(ValueModel::Number(n)),
                                        m1,
                                    )
                                },
                                _ => EvalOutcome::Fail(RuntimeErrorModel::NotAnIndex(iv), m1),
                            },
                            _ => EvalOutcome::Fail(RuntimeErrorModel::NotAList(lv), m1),
                        },
                    }
                },
            },
        }
    }
}

/// The meaning of a sequence of expressions evaluated left to right, each
/// required to produce a value.
pub open spec fn spec_eval_list(es: Seq<ExprModel>, m: ContextModel, fuel: nat) -> ListOutcome
    decreases fuel, 1int,
{
    if fuel == 0 {
        ListOutcome::Fail(RuntimeErrorModel::OutOfFuel, m)
    } else if es.len() == 0 {
        ListOutcome::Done(seq![], m)
    } else {
        match spec_eval(es[0], m, (fuel - 1) as nat) {
            EvalOutcome::Fail(e, m1) => ListOutcome::Fail(e, m1),
            EvalOutcome::Done(None, m1) => ListOutcome::Fail(RuntimeErrorModel::NoValue, m1),
            EvalOutcome::Done(Some(v), m1) => match spec_eval_list(
                es.drop_first(),
                m1,
                (fuel - 1) as nat,
            ) {
                ListOutcome::Fail(e, m2) => ListOutcome::Fail(e, m2),
                ListOutcome::Done(vs, m2) => ListOutcome::Done(seq![v] + vs, m2),
            },
        }
    }
}

/// The meaning of calling a resolved function on already-evaluated argument
/// values. A custom function runs its body in a fresh scope pushed onto the
/// caller's scope stack, so the body sees everything visible at the call
/// site; that scope is popped on every way out. An argument count different
/// from the parameter count fails with the arity failure.
pub open spec fn spec_call(
    name: Seq<u8>,
    f: FunctionModel,
    args: Seq<ValueModel>,
    m: ContextModel,
    fuel: nat,
) -> EvalOutcome
    decreases fuel, 0int,
{
    if fuel == 0 {
        EvalOutcome::Fail(RuntimeErrorModel::OutOfFuel, m)
    } else {
        match f {
            FunctionModel::BuiltIn(b) => spec_builtin_call(b, args, m),
            FunctionModel::Custom(params, body) => if args.len() != params.len() {
                EvalOutcome::Fail(
                    RuntimeErrorModel::InvalidSignature(
                        name,
                        params.len() as int,
                        args.len() as int,
                    ),
                    m,
                )
            } else {
                match spec_run_block(body, bind_args(ctx_push(m), params, args), (fuel - 1) as nat) {
                    crate::run::block::RunOutcome::Ret(v, m2) => EvalOutcome::Done(v, ctx_pop(m2)),
                    crate::run::block::RunOutcome::Done(m2) => EvalOutcome::Done(None, ctx_pop(m2)),
                    crate::run::block::RunOutcome::Fail(e, m2) => EvalOutcome::Fail(e, ctx_pop(m2)),
                }
            },
        }
    }
}

/// Whether an evaluation outcome is realized by an executable result and a
/// final context.
pub open spec fn eval_outcome_matches(o: EvalOutcome, r: EvalResult, m_after: ContextModel) -> bool {
    match o {
        EvalOutcome::Done(v, m) => eval_result_model(r) == Result::<
            Option<ValueModel>,
            RuntimeErrorModel,
        >::Ok(v) && m_after == m,
        EvalOutcome::Fail(e, m) => eval_result_model(r) == Result::<
            Option<ValueModel>,
            RuntimeErrorModel,
        >::Err(e) && m_after == m,
    }
}

/// Evaluates an atom: a literal copies to a value, an identifier resolves
/// through the scope manager.
fn evaluate_atom(atom: &crate::parse::parsers::atom::Atom, context: &mut Context) -> (r:
    EvalResult)
    ensures
        final(context)@ == old(context)@,
        match atom@ {
            crate::parse::parsers::atom::AtomModel::Literal(l) => eval_result_model(r) == Result::<
                Option<ValueModel>,
                RuntimeErrorModel,
            >::Ok(Some(literal_value(l))),
            crate::parse::parsers::atom::AtomModel::Identifier(name) => match ctx_lookup_var(
                old(context)@,
                name,
            ) {
                Some(v) => eval_result_model(r) == Result::<
                    Option<ValueModel>,
                    RuntimeErrorModel,
                >::Ok(Some(v)),
                None => eval_result_model(r) == Result::<
                    Option<ValueModel>,
                    RuntimeErrorModel,
                >::Err(RuntimeErrorModel::NotDefined(name)),
            },
        },
{
    match atom {
        crate::parse::parsers::atom::Atom::Literal(l) => {
            let lit = l.duplicate();
            let v = Value::from(lit);
            proof {
                assert(v@ == literal_value(l@));
            }
            Ok(Some(v))
        }
        crate::parse::parsers::atom::Atom::Identifier(name) => {
            match context.variable(name) {
                Ok(v) => Ok(Some(v)),
                Err(e) => Err(e),
            }
        }
    }
}

/// Evaluates every operand left to right, then dispatches to the fixed
/// semantics of the operator.
fn evaluate_operation(
    operator: &Operator,
    operands: &Vec<Expression>,
    context: &mut Context,
    fuel: u64,
) -> (r: EvalResult)
    requires
        fuel >= 1,
    ensures
        eval_outcome_matches(
            match spec_eval_list(expr_models(operands@), old(context)@, (fuel - 1) as nat) {
                ListOutcome::Done(vals, m1) => lift_result(
                    spec_apply_operator(*operator, vals),
                    m1,
                ),
                ListOutcome::Fail(e, m1) => EvalOutcome::Fail(e, m1),
            },
            r,
            final(context)@,
        ),
    decreases fuel, 1int,
{
    let values = match crate::run::utils::evaluate_values(operands, context, fuel - 1) {
        Ok(v) => v,
        Err(e) => {
            return Err(e);
        }
    };
    let ghost vals = value_models(values@);
    proof {
        lemma_value_models_len(values@);
        if values@.len() > 0 {
            lemma_value_models_index(values@, 0);
        }
        if values@.len() > 1 {
            lemma_value_models_index(values@, 1);
        }
    }
    let op = *operator;
    match op {
        Operator::Not => {
            if values.len() != 1 {
                Err(SplashRuntimeError::InvalidSignature(
                    crate::utils::str_bytes(builtin::op_name_str(op)),
                    1,
                    values.len(),
                ))
            } else {
                builtin::not(values[0].duplicate())
            }
        }
        _ => {
            if values.len() != 2 {
                Err(SplashRuntimeError::InvalidSignature(
                    crate::utils::str_bytes(builtin::op_name_str(op)),
                    2,
                    values.len(),
                ))
            } else {
                let a = values[0].duplicate();
                let b = values[1].duplicate();
                match op {
                    Operator::Plus => builtin::plus(a, b),
                    Operator::Minus => builtin::minus(a, b),
                    Operator::Times => builtin::times(a, b),
                    Operator::Divide => builtin::divide(a, b),
                    Operator::Modulo => builtin::modulo(a, b),
                    Operator::Equal => builtin::equal(a, b),
                    Operator::NotEqual => builtin::not_equal(a, b),
                    Operator::GreaterOrEqual => builtin::greater_or_equal(a, b),
                    Operator::GreaterThan => builtin::greater_than(a, b),
                    Operator::LessOrEqual => builtin::less_or_equal(a, b),
                    Operator::LessThan => builtin::less_than(a, b),
                    Operator::And => builtin::and(a, b),
                    _ => builtin::or(a, b),
                }
            }
        }
    }
}

/// Calls an already-resolved function on already-evaluated arguments. A
/// custom function's body runs in a fresh scope pushed onto the caller's
/// stack, popped on every way out.
fn call_function(
    identifier: &Vec<u8>,
    function: Function,
    arguments: Vec<Value>,
    context: &mut Context,
    fuel: u64,
) -> (r: EvalResult)
    ensures
        eval_outcome_matches(
            spec_call(identifier@, function@, value_models(arguments@), old(context)@, fuel as nat),
            r,
            final(context)@,
        ),
    decreases fuel, 0int,
{
    if fuel == 0 {
        return Err(SplashRuntimeError::OutOfFuel);
    }
    proof {
        lemma_value_models_len(arguments@);
    }
    match function {
        Function::BuiltIn(b) => {
            match b {
                Builtin::Print => builtin::print(&arguments, &mut context.output),
                Builtin::String => builtin::string(&arguments),
                Builtin::Length => builtin::length(&arguments),
                Builtin::Push => builtin::push(&arguments),
                Builtin::Pop => builtin::pop(&arguments),
                Builtin::Range => builtin::range(&arguments),
            }
        }
        Function::Custom(params, body) => {
            proof {
                lemma_bytes_models_len(params@);
            }
            if arguments.len() != params.len() {
                return Err(SplashRuntimeError::InvalidSignature(
                    copy_bytes(identifier),
                    params.len(),
                    arguments.len(),
                ));
            }
            let ghost pm = bytes_models(params@);
            let ghost am = value_models(arguments@);
            context.push_scope();
            let ghost pushed = context@;
            let mut i: usize = 0;
            proof {
                assert(pm.take(0).len() == 0);
                assert(am.take(0).len() == 0);
                assert(bind_args(pushed, pm.take(0), am.take(0)) == pushed);
            }
            while i < params.len()
                invariant
                    i <= params@.len(),
                    params@.len() == arguments@.len(),
                    pm.len() == params@.len(),
                    am.len() == arguments@.len(),
                    context@ == bind_args(pushed, pm.take(i as int), am.take(i as int)),
                decreases params@.len() - i,
            {
                proof {
                    lemma_bytes_models_index(params@, i as int);
                    lemma_value_models_index(arguments@, i as int);
                }
                context.initialize_variable(copy_bytes(&params[i]), arguments[i].duplicate());
                proof {
                    assert(pm.take(i + 1).drop_last() =~= pm.take(i as int));
                    assert(am.take(i + 1).drop_last() =~= am.take(i as int));
                    assert(pm.take(i + 1).last() == pm[i as int]);
                    assert(am.take(i + 1).last() == am[i as int]);
                }
                i = i + 1;
            }
            proof {
                assert(pm.take(pm.len() as int) =~= pm);
                assert(am.take(am.len() as int) =~= am);
            }
            let result = run(&body, context, fuel - 1);
            context.pop_scope();
            match result {
                Ok(BlockValue::Return(v)) => Ok(v),
                Ok(BlockValue::FellThrough) => Ok(None),
                Err(e) => Err(e),
            }
        }
    }
}

/// Resolves a named function, evaluates the arguments left to right, and
/// calls it. The function is resolved before the arguments are evaluated.
fn evaluate_function(
    identifier: &Vec<u8>,
    parameters: &Vec<Expression>,
    context: &mut Context,
    fuel: u64,
) -> (r: EvalResult)
    requires
        fuel >= 1,
    ensures
        eval_outcome_matches(
            match ctx_lookup_fun(old(context)@, identifier@) {
                None => EvalOutcome::Fail(
                    RuntimeErrorModel::NotDefined(identifier@),
                    old(context)@,
                ),
                Some(f) => match spec_eval_list(
                    expr_models(parameters@),
                    old(context)@,
                    (fuel - 1) as nat,
                ) {
                    ListOutcome::Done(vals, m1) => spec_call(
                        identifier@,
                        f,
                        vals,
                        m1,
                        (fuel - 1) as nat,
                    ),
                    ListOutcome::Fail(e, m1) => EvalOutcome::Fail(e, m1),
                },
            },
            r,
            final(context)@,
        ),
    decreases fuel, 1int,
{
    let function = match context.function(identifier) {
        Ok(f) => f,
        Err(e) => {
            return Err(e);
        }
    };
    let values = match crate::run::utils::evaluate_values(parameters, context, fuel - 1) {
        Ok(v) => v,
        Err(e) => {
            return Err(e);
        }
    };
    call_function(identifier, function, values, context, fuel - 1)
}

/// Resolves a named list binding, evaluates the index expression, and reads
/// the element at that position.
fn evaluate_index(
    identifier: &Vec<u8>,
    index: &Expression,
    context: &mut Context,
    fuel: u64,
) -> (r: EvalResult)
    requires
        fuel >= 1,
    ensures
        eval_outcome_matches(
            match ctx_lookup_var(old(context)@, identifier@) {
                None => EvalOutcome::Fail(
                    RuntimeErrorModel::NotDefined(identifier@),
                    old(context)@,
                ),
                Some(lv) => match spec_eval(index@, old(context)@, (fuel - 1) as nat) {
                    EvalOutcome::Fail(e, m1) => EvalOutcome::Fail(e, m1),
                    EvalOutcome::Done(None, m1) => EvalOutcome::Fail(
                        RuntimeErrorModel::NoValue,
                        m1,
                    ),
                    EvalOutcome::Done(Some(iv), m1) => match lv {
                        ValueModel::List(items) => match iv {
                            ValueModel::Number(n) => if 0 <= n < items.len() {
                                EvalOutcome::Done(Some(items[n]), m1)
                            } else {
                                EvalOutcome::Fail(
                                    RuntimeErrorModel::OutOfRange(ValueModel::Number(n)),
                                    m1,
                                )
                            },
                            _ => EvalOutcome::Fail(RuntimeErrorModel::NotAnIndex(iv), m1),
                        },
                        _ => EvalOutcome::Fail(RuntimeErrorModel::NotAList(lv), m1),
                    },
                },
            },
            r,
            final(context)@,
        ),
    decreases fuel, 1int,
{
    let list = match context.variable(identifier) {
        Ok(v) => v,
        Err(e) => {
            return Err(e);
        }
    };
    let index_value = match evaluate(index, context, fuel - 1) {
        Ok(Some(v)) => v,
        Ok(None) => {
            return Err(SplashRuntimeError::NoValue);
        }
        Err(e) => {
            return Err(e);
        }
    };
    match list {
        Value::List(items) => {
            match index_value {
                Value::Number(n) => {
                    proof {
                        lemma_value_models_len(items@);
                    }
                    if n >= 0 && (n as u128) < (items.len() as u128) {
                        proof {
                            lemma_value_models_index(items@, n as int);
                        }
                        Ok(Some(items[n as usize].duplicate()))
                    } else {
                        Err(SplashRuntimeError::OutOfRange(Value::Number(n)))
                    }
                }
                other => Err(SplashRuntimeError::NotAnIndex(other)),
            }
        }
        other => Err(SplashRuntimeError::NotAList(other)),
    }
}

/// Evaluates every element left to right and wraps them as a list value.
fn evaluate_list(elements: &Vec<Expression>, context: &mut Context, fuel: u64) -> (r: EvalResult)
    requires
        fuel >= 1,
    ensures
        eval_outcome_matches(
            match spec_eval_list(expr_models(elements@), old(context)@, (fuel - 1) as nat) {
                ListOutcome::Done(vals, m1) => EvalOutcome::Done(
                    Some(ValueModel::List(vals)),
                    m1,
                ),
                ListOutcome::Fail(e, m1) => EvalOutcome::Fail(e, m1),
            },
            r,
            final(context)@,
        ),
    decreases fuel, 1int,
{
    match crate::run::utils::evaluate_values(elements, context, fuel - 1) {
        Ok(values) => Ok(Some(Value::List(values))),
        Err(e) => Err(e),
    }
}

/// Reduces an expression to an optional value against the scope manager,
/// spending one unit of fuel per step; `spec_eval` is the meaning it
/// realizes, for the given context and step budget alike.
pub fn evaluate(expression: &Expression, context: &mut Context, fuel: u64) -> (r: EvalResult)
    ensures
        eval_outcome_matches(
            spec_eval(expression@, old(context)@, fuel as nat),
            r,
            final(context)@,
        ),
    decreases fuel, 2int,
{
    if fuel == 0 {
        return Err(SplashRuntimeError::OutOfFuel);
    }
    match expression {
        Expression::Atom(a) => evaluate_atom(a, context),
        Expression::Operation(operator, operands) => evaluate_operation(
            operator,
            operands,
            context,
            fuel,
        ),
        Expression::Function(identifier, parameters) => evaluate_function(
            identifier,
            parameters,
            context,
            fuel,
        ),
        Expression::List(elements) => evaluate_list(elements, context, fuel),
        Expression::Index(identifier, index) => {
            proof {
                assert(seq![expr_model(**index)].len() == 1);
                assert(seq![expr_model(**index)][0] == expr_model(**index));
            }
            evaluate_index(identifier, &**index, context, fuel)
        }
    }
}

/// Law: evaluation is deterministic. The meaning of an expression is a
/// function of the expression, the context, and the step budget alone; so
/// evaluating the same parsed expression twice against unmodified bindings
/// - two contexts that agree - yields the identical outcome, value and all.
pub proof fn lemma_evaluation_deterministic(
    e: ExprModel,
    m1: ContextModel,
    m2: ContextModel,
    fuel: nat,
)
    requires
        m1 == m2,
    ensures
        spec_eval(e, m1, fuel) == spec_eval(e, m2, fuel),
{
}

/// The scope a call builds for its parameters, in binding order; later
/// parameters shadow earlier ones of the same name.
pub open spec fn param_scope(params: Seq<Seq<u8>>, args: Seq<ValueModel>) -> Seq<
    (Seq<u8>, ValueModel),
>
    recommends
        params.len() == args.len(),
    decreases params.len(),
{
    if params.len() == 0 {
        seq![]
    } else {
        param_scope(params.drop_last(), args.drop_last()).push((params.last(), args.last()))
    }
}

/// Binding the parameters touches only the one fresh scope a call pushes:
/// the body starts with the caller's scopes intact beneath a scope holding
/// exactly the parameters.
pub proof fn lemma_bind_args_shape(m: ContextModel, params: Seq<Seq<u8>>, args: Seq<ValueModel>)
    requires
        params.len() == args.len(),
    ensures
        bind_args(ctx_push(m), params, args) == (ContextModel {
            vars: m.vars.push(param_scope(params, args)),
            funcs: m.funcs.push(seq![]),
            output: m.output,
        }),
    decreases params.len(),
{
    if params.len() == 0 {
        assert(param_scope(params, args) =~= Seq::<(Seq<u8>, ValueModel)>::empty());
        assert(bind_args(ctx_push(m), params, args) == ctx_push(m));
    } else {
        lemma_bind_args_shape(m, params.drop_last(), args.drop_last());
        let inner = bind_args(ctx_push(m), params.drop_last(), args.drop_last());
        assert(inner.vars.len() == m.vars.len() + 1);
        assert(bind_args(ctx_push(m), params, args) == ctx_init_var(
            inner,
            params.last(),
            args.last(),
        ));
        assert(inner.vars.update(
            inner.vars.len() - 1,
            inner.vars.last().push((params.last(), args.last())),
        ) =~= m.vars.push(param_scope(params, args)));
    }
}

/// A name that is no parameter is not bound in the parameter scope.
proof fn lemma_param_scope_miss(params: Seq<Seq<u8>>, args: Seq<ValueModel>, x: Seq<u8>)
    requires
        params.len() == args.len(),
        forall|i: int| 0 <= i < params.len() ==> params[i] != x,
    ensures
        crate::run::context::scope_lookup_var(param_scope(params, args), x) is None,
    decreases params.len(),
{
    if params.len() > 0 {
        assert(params.drop_last().len() == params.len() - 1);
        assert(forall|i: int|
            0 <= i < params.drop_last().len() ==> #[trigger] params.drop_last()[i] == params[i]);
        lemma_param_scope_miss(params.drop_last(), args.drop_last(), x);
        assert(param_scope(params, args).last() == (params.last(), args.last()));
        assert(param_scope(params, args).drop_last() =~= param_scope(
            params.drop_last(),
            args.drop_last(),
        ));
    }
}

/// Law: call-site scoping. A custom function's body starts in the caller's
/// context with one fresh scope on top holding exactly the parameters, so
/// any variable that is visible at the call site and not shadowed by a
/// parameter is visible to the body with the very value it has at the call
/// site - whether or not it existed when the function was defined.
pub proof fn lemma_call_site_scoping(
    m: ContextModel,
    params: Seq<Seq<u8>>,
    args: Seq<ValueModel>,
    x: Seq<u8>,
)
    requires
        params.len() == args.len(),
        forall|i: int| 0 <= i < params.len() ==> params[i] != x,
    ensures
        ctx_lookup_var(bind_args(ctx_push(m), params, args), x) == ctx_lookup_var(m, x),
{
    lemma_bind_args_shape(m, params, args);
    lemma_param_scope_miss(params, args, x);
    assert(m.vars.push(param_scope(params, args)).drop_last() =~= m.vars);
}

/// Law: arity enforcement. Calling a custom function with an argument count
/// different from its parameter count fails with the arity failure naming
/// the expected and the provided counts, and leaves the context unchanged.
pub proof fn lemma_call_arity(
    name: Seq<u8>,
    params: Seq<Seq<u8>>,
    body: Seq<crate::parse::parsers::statement::StmtModel>,
    args: Seq<ValueModel>,
    m: ContextModel,
    fuel: nat,
)
    requires
        fuel >= 1,
        args.len() != params.len(),
    ensures
        spec_call(name, FunctionModel::Custom(params, body), args, m, fuel) == EvalOutcome::Fail(
            RuntimeErrorModel::InvalidSignature(name, params.len() as int, args.len() as int),
            m,
        ),
{
}

/// Law: type enforcement for `push`. Calling `push` whose first argument is
/// not a list fails with the type failure carrying the offending value, and
/// leaves the context unchanged.
pub proof fn lemma_push_requires_list(args: Seq<ValueModel>, m: ContextModel)
    requires
        args.len() == 2,
        !(args[0] is List),
    ensures
        spec_builtin_call(Builtin::Push, args, m) == EvalOutcome::Fail(
            RuntimeErrorModel::NotAList(args[0]),
            m,
        ),
{
}

} // verus!
