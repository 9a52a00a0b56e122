use vstd::prelude::*;

use crate::parse::parsers::block::Block;
use crate::parse::parsers::expression::Expression;
use crate::parse::parsers::statement::{
    lemma_stmt_models_index, stmt_models, Statement, StmtModel,
};
use crate::run::context::{
    ctx_assign_var, ctx_init_fun, ctx_init_var, ctx_lookup_var, ctx_pop, ctx_push, Context,
    ContextModel,
};
use crate::run::error::{RuntimeErrorModel, SplashRuntimeError};
use crate::run::evaluate::{spec_eval, EvalOutcome};
use crate::run::function::FunctionModel;
use crate::run::utils::{spec_eval_predicate, PredOutcome};
use crate::run::value::{Value, ValueModel};

verus! {

/// How a block finished: with an explicit `return` carrying its optional
/// value, or by falling through its last statement.
pub enum BlockValue {
    Return(Option<Value>),
    FellThrough,
}

/// The outcome of running statements: an explicit return, a fall-through,
/// or a failure, each with the context after.
pub enum RunOutcome {
    Ret(Option<ValueModel>, ContextModel),
    Done(ContextModel),
    Fail(RuntimeErrorModel, ContextModel),
}

/// The model of an optional runtime value.
pub open spec fn opt_value_model(v: Option<Value>) -> Option<ValueModel> {
    match v {
        Some(v) => Some(v@),
        None => None,
    }
}

/// The meaning of a block's statements run in order. A `return` outcome of
/// any statement ends the block at once; otherwise each statement threads
/// the context to the next.
pub open spec fn spec_run_block(stmts: Seq<StmtModel>, m: ContextModel, fuel: nat) -> RunOutcome
    decreases fuel, 1int,
{
    if fuel == 0 {
        RunOutcome::Fail(RuntimeErrorModel::OutOfFuel, m)
    } else if stmts.len() == 0 {
        RunOutcome::Done(m)
    } else {
        match spec_run_stmt(stmts[0], m, (fuel - 1) as nat) {
            RunOutcome::Done(m1) => spec_run_block(stmts.drop_first(), m1, (fuel - 1) as nat),
            RunOutcome::Ret(v, m1) => RunOutcome::Ret(v, m1),
            RunOutcome::Fail(e, m1) => RunOutcome::Fail(e, m1),
        }
    }
}

/// The meaning of a nested block run in a fresh child scope, which is
/// popped on every way out, a return and a failure included.
pub open spec fn spec_run_child(stmts: Seq<StmtModel>, m: ContextModel, fuel: nat) -> RunOutcome
    decreases fuel, 2int,
{
    match spec_run_block(stmts, ctx_push(m), fuel) {
        RunOutcome::Ret(v, m1) => RunOutcome::Ret(v, ctx_pop(m1)),
        RunOutcome::Done(m1) => RunOutcome::Done(ctx_pop(m1)),
        RunOutcome::Fail(e, m1) => RunOutcome::Fail(e, ctx_pop(m1)),
    }
}

/// The meaning of a `for` loop over the elements of an already-evaluated
/// list: each element binds the loop variable in a fresh child scope around
/// one run of the body.
pub open spec fn spec_run_for(
    name: Seq<u8>,
    items: Seq<ValueModel>,
    body: Seq<StmtModel>,
    m: ContextModel,
    fuel: nat,
) -> RunOutcome
    decreases fuel, 0int,
{
    if fuel == 0 {
        RunOutcome::Fail(RuntimeErrorModel::OutOfFuel, m)
    } else if items.len() == 0 {
        RunOutcome::Done(m)
    } else {
        match spec_run_block(body, ctx_init_var(ctx_push(m), name, items[0]), (fuel - 1) as nat) {
            RunOutcome::Ret(v, m1) => RunOutcome::Ret(v, ctx_pop(m1)),
            RunOutcome::Fail(e, m1) => RunOutcome::Fail(e, ctx_pop(m1)),
            RunOutcome::Done(m1) => spec_run_for(
                name,
                items.drop_first(),
                body,
                ctx_pop(m1),
                (fuel - 1) as nat,
            ),
        }
    }
}

/// The meaning of one statement. Statements that own nested blocks run them
/// in a fresh child scope and propagate an inner `return` outward; a
/// `while` loop re-evaluates its condition each pass, spending fuel.
pub open spec fn spec_run_stmt(s: StmtModel, m: ContextModel, fuel: nat) -> RunOutcome
    decreases fuel, 3int,
{
    if fuel == 0 {
        RunOutcome::Fail(RuntimeErrorModel::OutOfFuel, m)
    } else {
        match s {
            StmtModel::Simple(e) => match spec_eval(e, m, (fuel - 1) as nat) {
                EvalOutcome::Done(_, m1) => RunOutcome::Done(m1),
                EvalOutcome::Fail(er, m1) => RunOutcome::Fail(er, m1),
            },
            StmtModel::Block(b) => spec_run_child(b, m, (fuel - 1) as nat),
            StmtModel::Initialization(name, e) => match spec_eval(e, m, (fuel - 1) as nat) {
                EvalOutcome::Done(Some(v), m1) => RunOutcome::Done(ctx_init_var(m1, name, v)),
                EvalOutcome::Done(None, m1) => RunOutcome::Fail(RuntimeErrorModel::NoValue, m1),
                EvalOutcome::Fail(er, m1) => RunOutcome::Fail(er, m1),
            },
            StmtModel::Assignment(name, e) => match spec_eval(e, m, (fuel - 1) as nat) {
                EvalOutcome::Done(Some(v), m1) => match ctx_assign_var(m1, name, v) {
                    Some(m2) => RunOutcome::Done(m2),
                    None => RunOutcome::Fail(RuntimeErrorModel::NotDefined(name), m1),
                },
                EvalOutcome::Done(None, m1) => RunOutcome::Fail(RuntimeErrorModel::NoValue, m1),
                EvalOutcome::Fail(er, m1) => RunOutcome::Fail(er, m1),
            },
            StmtModel::IndexAssignment(name, idx, e) => match ctx_lookup_var(m, name) {
                None => RunOutcome::Fail(RuntimeErrorModel::NotDefined(name), m),
                Some(lv) => match spec_eval(idx, m, (fuel - 1) as nat) {
                    EvalOutcome::Fail(er, m1) => RunOutcome::Fail(er, m1),
                    EvalOutcome::Done(None, m1) => RunOutcome::Fail(RuntimeErrorModel::NoValue, m1),
                    EvalOutcome::Done(Some(iv), m1) => match lv {
                        ValueModel::List(items) => match iv {
                            ValueModel::Number(n) => match spec_eval(e, m1, (fuel - 1) as nat) {
                                EvalOutcome::Fail(er, m2) => RunOutcome::Fail(er, m2),
                                EvalOutcome::Done(None, m2) => RunOutcome::Fail(
                                    RuntimeErrorModel::NoValue,
                                    m2,
                                ),
                                EvalOutcome::Done(Some(v), m2) => if 0 <= n < items.len() {
                                    match ctx_assign_var(
                                        m2,
                                        name,
                                        ValueModel::List(items.update(n, v)),
                                    ) {
                                        Some(m3) => RunOutcome::Done(m3),
                                        None => RunOutcome::Fail(
                                            RuntimeErrorModel::NotDefined(name),
                                            m2,
                                        ),
                                    }
                                } else {
                                    RunOutcome::Fail(
                                        RuntimeErrorModel::OutOfRange(ValueModel::Number(n)),
                                        m2,
                                    )
                                },
                            },
                            _ => RunOutcome::Fail(RuntimeErrorModel::NotAnIndex(iv), m1),
                        },
                        _ => RunOutcome::Fail(RuntimeErrorModel::NotAList(lv), m1),
                    },
                },
            },
            StmtModel::If(c, b) => match spec_eval_predicate(c, m, (fuel - 1) as nat) {
                PredOutcome::Done(true, m1) => spec_run_child(b, m1, (fuel - 1) as nat),
                PredOutcome::Done(false, m1) => RunOutcome::Done(m1),
                PredOutcome::Fail(er, m1) => RunOutcome::Fail(er, m1),
            },
            StmtModel::IfElse(c, b, o) => match spec_eval_predicate(c, m, (fuel - 1) as nat) {
                PredOutcome::Done(true, m1) => spec_run_child(b, m1, (fuel - 1) as nat),
                PredOutcome::Done(false, m1) => spec_run_child(o, m1, (fuel - 1) as nat),
                PredOutcome::Fail(er, m1) => RunOutcome::Fail(er, m1),
            },
            StmtModel::While(c, b) => match spec_eval_predicate(c, m, (fuel - 1) as nat) {
                PredOutcome::Done(false, m1) => RunOutcome::Done(m1),
                PredOutcome::Done(true, m1) => match spec_run_block(
                    b,
                    ctx_push(m1),
                    (fuel - 1) as nat,
                ) {
                    RunOutcome::Ret(v, m2) => RunOutcome::Ret(v, ctx_pop(m2)),
                    RunOutcome::Fail(er, m2) => RunOutcome::Fail(er, ctx_pop(m2)),
                    RunOutcome::Done(m2) => spec_run_stmt(s, ctx_pop(m2), (fuel - 1) as nat),
                },
                PredOutcome::Fail(er, m1) => RunOutcome::Fail(er, m1),
            },
            StmtModel::For(name, le, b) => match spec_eval(le, m, (fuel - 1) as nat) {
                EvalOutcome::Fail(er, m1) => RunOutcome::Fail(er, m1),
                EvalOutcome::Done(None, m1) => RunOutcome::Fail(RuntimeErrorModel::NoValue, m1),
                EvalOutcome::Done(Some(v), m1) => match v {
                    ValueModel::List(items) => spec_run_for(name, items, b, m1, (fuel - 1) as nat),
                    _ => RunOutcome::Fail(RuntimeErrorModel::NotAList(v), m1),
                },
            },
            StmtModel::Definition(name, params, body) => RunOutcome::Done(
                ctx_init_fun(m, name, FunctionModel::Custom(params, body)),
            ),
            StmtModel::Return(e) => match e {
                None => RunOutcome::Ret(None, m),
                Some(e) => match spec_eval(e, m, (fuel - 1) as nat) {
                    EvalOutcome::Done(v, m1) => RunOutcome::Ret(v, m1),
                    EvalOutcome::Fail(er, m1) => RunOutcome::Fail(er, m1),
                },
            },
        }
    }
}

/// Whether a run outcome is realized by an executable result and a final
/// context.
pub open spec fn run_outcome_matches(
    o: RunOutcome,
    r: Result<BlockValue, SplashRuntimeError>,
    m_after: ContextModel,
) -> bool {
    match o {
        RunOutcome::Ret(v, m) => (r matches Ok(bv) && bv matches BlockValue::Return(x)
            && opt_value_model(x) == v) && m_after == m,
        RunOutcome::Done(m) => (r matches Ok(bv) && bv matches BlockValue::FellThrough) && m_after
            == m,
        RunOutcome::Fail(e, m) => (r matches Err(er) && er@ == e) && m_after == m,
    }
}

/// Runs a nested block in a fresh child scope, popped on every way out.
fn run_child(b: &Block, context: &mut Context, fuel: u64) -> (r: Result<
    BlockValue,
    SplashRuntimeError,
>)
    ensures
        run_outcome_matches(spec_run_child(b@, old(context)@, fuel as nat), r, final(context)@),
    decreases fuel, 2int,
{
    context.push_scope();
    let r = run(b, context, fuel);
    context.pop_scope();
    r
}

/// Executes an assignment to one element of a named list binding.
#[verifier::spinoff_prover]
fn run_index_assignment(
    name: &Vec<u8>,
    idx: &Expression,
    e: &Expression,
    context: &mut Context,
    fuel: u64,
) -> (r: Result<BlockValue, SplashRuntimeError>)
    requires
        fuel >= 1,
    ensures
        run_outcome_matches(
            spec_run_stmt(StmtModel::IndexAssignment(name@, idx@, e@), old(context)@, fuel as nat),
            r,
            final(context)@,
        ),
    decreases fuel, 2int,
{
    let list = match context.variable(name) {
        Ok(v) => v,
        Err(er) => {
            return Err(er);
        }
    };
    let index_value = match crate::run::evaluate::evaluate(idx, context, fuel - 1) {
        Ok(Some(v)) => v,
        Ok(None) => {
            return Err(SplashRuntimeError::NoValue);
        }
        Err(er) => {
            return Err(er);
        }
    };
    match list {
        Value::List(mut items) => {
            match index_value {
                Value::Number(n) => {
                    let value = match crate::run::evaluate::evaluate(e, context, fuel - 1) {
                        Ok(Some(v)) => v,
                        Ok(None) => {
                            return Err(SplashRuntimeError::NoValue);
                        }
                        Err(er) => {
                            return Err(er);
                        }
                    };
                    proof {
                        crate::run::value::lemma_value_models_len(items@);
                    }
                    if n >= 0 && (n as u128) < (items.len() as u128) {
                        let ghost items0 = items@;
                        let ghost vm = value@;
                        items[n as usize] = value;
                        proof {
                            crate::run::value::lemma_value_models_update(
                                items0,
                                n as int,
                                vm,
                                items@,
                            );
                        }
                        match context.assign_variable(name, Value::List(items)) {
                            Ok(()) => Ok(BlockValue::FellThrough),
                            Err(er) => Err(er),
                        }
                    } else {
                        Err(SplashRuntimeError::OutOfRange(Value::Number(n)))
                    }
                }
                other => Err(SplashRuntimeError::NotAnIndex(other)),
            }
        }
        other => Err(SplashRuntimeError::NotAList(other)),
    }
}

/// Executes a `while` loop, re-evaluating its condition each pass and
/// running the body in a fresh child scope per iteration.
#[verifier::spinoff_prover]
fn run_while(c: &Expression, b: &Block, context: &mut Context, fuel: u64) -> (r: Result<
    BlockValue,
    SplashRuntimeError,
>)
    requires
        fuel >= 1,
    ensures
        run_outcome_matches(
            spec_run_stmt(StmtModel::While(c@, b@), old(context)@, fuel as nat),
            r,
            final(context)@,
        ),
    decreases fuel, 2int,
{
    let ghost sm = StmtModel::While(c@, b@);
    let ghost m_orig = old(context)@;
    let ghost fuel_orig = fuel as nat;
    let mut f: u64 = fuel;
    loop
        invariant
            1 <= f <= fuel,
            sm == StmtModel::While(c@, b@),
            spec_run_stmt(sm, m_orig, fuel_orig) == spec_run_stmt(sm, context@, f as nat),
        decreases f,
    {
        let ghost ctx_top = context@;
        let ghost f_top = f as nat;
        match crate::run::utils::evaluate_predicate(c, context, f - 1) {
            Err(er) => {
                return Err(er);
            }
            Ok(false) => {
                return Ok(BlockValue::FellThrough);
            }
            Ok(true) => {
                context.push_scope();
                let r = run(b, context, f - 1);
                context.pop_scope();
                match r {
                    Ok(BlockValue::Return(v)) => {
                        return Ok(BlockValue::Return(v));
                    }
                    Err(er) => {
                        return Err(er);
                    }
                    Ok(BlockValue::FellThrough) => {
                        if f == 1 {
                            return Err(SplashRuntimeError::OutOfFuel);
                        }
                        f = f - 1;
                    }
                }
            }
        }
    }
}

/// Executes a `for` loop over an already-evaluated list of elements.
#[verifier::spinoff_prover]
fn run_for_items(
    name: &Vec<u8>,
    items: Vec<Value>,
    b: &Block,
    context: &mut Context,
    fuel: u64,
) -> (r: Result<BlockValue, SplashRuntimeError>)
    ensures
        run_outcome_matches(
            spec_run_for(
                name@,
                crate::run::value::value_models(items@),
                b@,
                old(context)@,
                fuel as nat,
            ),
            r,
            final(context)@,
        ),
    decreases fuel, 2int,
{
    proof {
        crate::run::value::lemma_value_models_len(items@);
    }
    let ghost im = crate::run::value::value_models(items@);
    let ghost m_start = old(context)@;
    let ghost f_start = fuel as nat;
    let mut f: u64 = fuel;
    let mut i: usize = 0;
    proof {
        assert(im.skip(0) =~= im);
    }
    while f > 0 && i < items.len()
        invariant
            f <= fuel,
            i <= items@.len(),
            im.len() == items@.len(),
            im == crate::run::value::value_models(items@),
            run_for_translates(
                spec_run_for(name@, im.skip(i as int), b@, context@, f as nat),
                spec_run_for(name@, im, b@, m_start, f_start),
            ),
        decreases items@.len() - i,
    {
        let ghost ctx_before = context@;
        let ghost f_before = f as nat;
        proof {
            crate::run::value::lemma_value_models_index(items@, i as int);
            assert(im.skip(i as int)[0] == im[i as int]);
        }
        context.push_scope();
        context.initialize_variable(crate::utils::copy_bytes(name), items[i].duplicate());
        let r = run(b, context, f - 1);
        context.pop_scope();
        match r {
            Ok(BlockValue::Return(v)) => {
                return Ok(BlockValue::Return(v));
            }
            Err(er) => {
                return Err(er);
            }
            Ok(BlockValue::FellThrough) => {}
        }
        proof {
            assert(im.skip(i as int).drop_first() =~= im.skip(i + 1));
        }
        f = f - 1;
        i = i + 1;
    }
    if f == 0 {
        return Err(SplashRuntimeError::OutOfFuel);
    }
    proof {
        assert(im.skip(i as int).len() == 0);
    }
    Ok(BlockValue::FellThrough)
}

/// Executes one statement; see `spec_run_stmt` for its meaning.
#[verifier::rlimit(50)]
fn run_statement(statement: &Statement, context: &mut Context, fuel: u64) -> (r: Result<
    BlockValue,
    SplashRuntimeError,
>)
    ensures
        run_outcome_matches(
            spec_run_stmt(statement@, old(context)@, fuel as nat),
            r,
            final(context)@,
        ),
    decreases fuel, 3int,
{
    if fuel == 0 {
        return Err(SplashRuntimeError::OutOfFuel);
    }
    match statement {
        Statement::Simple(e) => {
            match crate::run::evaluate::evaluate(e, context, fuel - 1) {
                Ok(_) => Ok(BlockValue::FellThrough),
                Err(er) => Err(er),
            }
        }
        Statement::Block(b) => run_child(b, context, fuel - 1),
        Statement::Initialization(name, e) => {
            match crate::run::evaluate::evaluate(e, context, fuel - 1) {
                Ok(Some(v)) => {
                    context.initialize_variable(crate::utils::copy_bytes(name), v);
                    Ok(BlockValue::FellThrough)
                }
                Ok(None) => Err(SplashRuntimeError::NoValue),
                Err(er) => Err(er),
            }
        }
        Statement::Assignment(name, e) => {
            match crate::run::evaluate::evaluate(e, context, fuel - 1) {
                Ok(Some(v)) => {
                    match context.assign_variable(name, v) {
                        Ok(()) => Ok(BlockValue::FellThrough),
                        Err(er) => Err(er),
                    }
                }
                Ok(None) => Err(SplashRuntimeError::NoValue),
                Err(er) => Err(er),
            }
        }
        Statement::IndexAssignment(name, idx, e) => run_index_assignment(
            name,
            idx,
            e,
            context,
            fuel,
        ),
        Statement::If(c, b) => {
            match crate::run::utils::evaluate_predicate(c, context, fuel - 1) {
                Err(er) => Err(er),
                Ok(false) => Ok(BlockValue::FellThrough),
                Ok(true) => run_child(b, context, fuel - 1),
            }
        }
        Statement::IfElse(c, b, o) => {
            match crate::run::utils::evaluate_predicate(c, context, fuel - 1) {
                Err(er) => Err(er),
                Ok(true) => run_child(b, context, fuel - 1),
                Ok(false) => run_child(o, context, fuel - 1),
            }
        }
        Statement::While(c, b) => run_while(c, b, context, fuel),
        Statement::For(name, le, b) => {
            let list = match crate::run::evaluate::evaluate(le, context, fuel - 1) {
                Ok(Some(v)) => v,
                Ok(None) => {
                    return Err(SplashRuntimeError::NoValue);
                }
                Err(er) => {
                    return Err(er);
                }
            };
            match list {
                Value::List(items) => run_for_items(name, items, b, context, fuel - 1),
                other => Err(SplashRuntimeError::NotAList(other)),
            }
        }
        Statement::Definition(name, params, body) => {
            context.initialize_function(
                crate::utils::copy_bytes(name),
                crate::utils::copy_names(params),
                body.duplicate(),
            );
            Ok(BlockValue::FellThrough)
        }
        Statement::Return(e) => {
            match e {
                None => Ok(BlockValue::Return(None)),
                Some(e) => {
                    match crate::run::evaluate::evaluate(e, context, fuel - 1) {
                        Ok(v) => Ok(BlockValue::Return(v)),
                        Err(er) => Err(er),
                    }
                }
            }
        }
    }
}

/// Whether one `for` outcome determines another: the loop over the
/// remaining elements finishes the loop over all of them.
pub open spec fn run_for_translates(rest: RunOutcome, full: RunOutcome) -> bool {
    match rest {
        RunOutcome::Done(m) => full == RunOutcome::Done(m),
        RunOutcome::Ret(v, m) => full == RunOutcome::Ret(v, m),
        RunOutcome::Fail(e, m) => full == RunOutcome::Fail(e, m),
    }
}

/// Executes a block's statements in order against the scope manager,
/// spending one unit of fuel per step; `spec_run_block` is the meaning it
/// realizes. An inner `return` outcome is handed to the caller at once.
pub fn run(block: &Block, context: &mut Context, fuel: u64) -> (r: Result<
    BlockValue,
    SplashRuntimeError,
>)
    ensures
        run_outcome_matches(spec_run_block(block@, old(context)@, fuel as nat), r, final(context)@),
    decreases fuel, 1int,
{
    let statements = block.statements();
    let ghost full = block@;
    let ghost m0 = old(context)@;
    proof {
        crate::parse::parsers::statement::lemma_stmt_models_len(statements@);
        assert(full.skip(0) =~= full);
    }
    let mut f: u64 = fuel;
    let mut i: usize = 0;
    while f > 0 && i < statements.len()
        invariant
            f <= fuel,
            i <= statements@.len(),
            full.len() == statements@.len(),
            stmt_models(statements@) == full,
            run_for_translates(
                spec_run_block(full.skip(i as int), context@, f as nat),
                spec_run_block(full, m0, fuel as nat),
            ),
        decreases statements@.len() - i,
    {
        let ghost ctx_before = context@;
        let ghost f_before = f as nat;
        proof {
            lemma_stmt_models_index(statements@, i as int);
            assert(full.skip(i as int)[0] == full[i as int]);
        }
        match run_statement(&statements[i], context, f - 1) {
            Ok(BlockValue::FellThrough) => {
                proof {
                    assert(full.skip(i as int).drop_first() =~= full.skip(i + 1));
                }
            }
            Ok(BlockValue::Return(v)) => {
                return Ok(BlockValue::Return(v));
            }
            Err(er) => {
                return Err(er);
            }
        }
        f = f - 1;
        i = i + 1;
    }
    if f == 0 {
        return Err(SplashRuntimeError::OutOfFuel);
    }
    proof {
        assert(full.skip(i as int).len() == 0);
    }
    Ok(BlockValue::FellThrough)
}

} // verus!
