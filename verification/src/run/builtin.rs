use vstd::prelude::*;

use crate::parse::parsers::operator::Operator;
use crate::run::error::{RuntimeErrorModel, SplashRuntimeError};
use crate::run::function::{builtin_name, Builtin};
use crate::run::value::{
    display_value, lemma_value_models_index, lemma_value_models_len, value_display, value_model,
    value_models, Value, ValueModel,
};
use crate::utils::{bytes_models, str_bytes};

verus! {

/// The outcome of one operator or built-in application.
pub type EvalResult = Result<Option<Value>, SplashRuntimeError>;

/// Mathematical model of such an outcome.
pub type EvalResultModel = Result<Option<ValueModel>, RuntimeErrorModel>;

/// The model of an operator or built-in outcome.
pub open spec fn eval_result_model(r: EvalResult) -> EvalResultModel {
    match r {
        Ok(None) => Ok(None),
        Ok(Some(v)) => Ok(Some(v@)),
        Err(e) => Err(e@),
    }
}

/// The characters of an operator's name, as used in diagnostics.
pub open spec fn op_chars(op: Operator) -> Seq<char> {
    match op {
        Operator::Not => seq!['n', 'o', 't'],
        Operator::Plus => seq!['p', 'l', 'u', 's'],
        Operator::Minus => seq!['m', 'i', 'n', 'u', 's'],
        Operator::Times => seq!['t', 'i', 'm', 'e', 's'],
        Operator::Divide => seq!['d', 'i', 'v', 'i', 'd', 'e'],
        Operator::Modulo => seq!['m', 'o', 'd', 'u', 'l', 'o'],
        Operator::Equal => seq!['e', 'q', 'u', 'a', 'l'],
        Operator::NotEqual => seq!['n', 'o', 't', '_', 'e', 'q', 'u', 'a', 'l'],
        Operator::GreaterOrEqual => seq![
            'g', 'r', 'e', 'a', 't', 'e', 'r', '_', 'o', 'r', '_', 'e', 'q', 'u', 'a', 'l',
        ],
        Operator::GreaterThan => seq!['g', 'r', 'e', 'a', 't', 'e', 'r', '_', 't', 'h', 'a', 'n'],
        Operator::LessOrEqual => seq![
            'l', 'e', 's', 's', '_', 'o', 'r', '_', 'e', 'q', 'u', 'a', 'l',
        ],
        Operator::LessThan => seq!['l', 'e', 's', 's', '_', 't', 'h', 'a', 'n'],
        Operator::And => seq!['a', 'n', 'd'],
        Operator::Or => seq!['o', 'r'],
    }
}

/// The bytes of an operator's name, as used in diagnostics.
pub open spec fn op_name(op: Operator) -> Seq<u8> {
    op_chars(op).map_values(|c: char| c as u8)
}

/// The name of an operator, as used in diagnostics.
pub fn op_name_str(op: Operator) -> (r: &'static str)
    ensures
        r@ == op_chars(op),
{
    match op {
        Operator::Not => {
            proof {
                reveal_strlit("not");
            }
            "not"
        }
        Operator::Plus => {
            proof {
                reveal_strlit("plus");
            }
            "plus"
        }
        Operator::Minus => {
            proof {
                reveal_strlit("minus");
            }
            "minus"
        }
        Operator::Times => {
            proof {
                reveal_strlit("times");
            }
            "times"
        }
        Operator::Divide => {
            proof {
                reveal_strlit("divide");
            }
            "divide"
        }
        Operator::Modulo => {
            proof {
                reveal_strlit("modulo");
            }
            "modulo"
        }
        Operator::Equal => {
            proof {
                reveal_strlit("equal");
            }
            "equal"
        }
        Operator::NotEqual => {
            proof {
                reveal_strlit("not_equal");
            }
            "not_equal"
        }
        Operator::GreaterOrEqual => {
            proof {
                reveal_strlit("greater_or_equal");
            }
            "greater_or_equal"
        }
        Operator::GreaterThan => {
            proof {
                reveal_strlit("greater_than");
            }
            "greater_than"
        }
        Operator::LessOrEqual => {
            proof {
                reveal_strlit("less_or_equal");
            }
            "less_or_equal"
        }
        Operator::LessThan => {
            proof {
                reveal_strlit("less_than");
            }
            "less_than"
        }
        Operator::And => {
            proof {
                reveal_strlit("and");
            }
            "and"
        }
        Operator::Or => {
            proof {
                reveal_strlit("or");
            }
            "or"
        }
    }
}

/// One value in a fresh argument vector.
fn single_value(a: Value) -> (r: Vec<Value>)
    ensures
        value_models(r@) == seq![a@],
{
    let ghost am = a@;
    let mut r: Vec<Value> = Vec::new();
    r.push(a);
    proof {
        assert(r@.drop_last() =~= Seq::<Value>::empty());
        assert(value_models(r@.drop_last()).len() == 0);
        assert(value_models(r@) =~= seq![am]);
    }
    r
}

/// Two values in a fresh argument vector.
fn pair_values(a: Value, b: Value) -> (r: Vec<Value>)
    ensures
        value_models(r@) == seq![a@, b@],
{
    let ghost am = a@;
    let ghost bm = b@;
    let mut r: Vec<Value> = Vec::new();
    r.push(a);
    let ghost r1 = r@;
    r.push(b);
    proof {
        assert(r1.drop_last() =~= Seq::<Value>::empty());
        assert(value_models(r1.drop_last()).len() == 0);
        assert(value_models(r1) =~= seq![am]);
        assert(r@.drop_last() =~= r1);
        assert(value_models(r@) =~= seq![am, bm]);
    }
    r
}

/// Logical negation: requires one boolean.
pub open spec fn spec_not(v: ValueModel) -> EvalResultModel {
    match v {
        ValueModel::Boolean(b) => Ok(Some(ValueModel::Boolean(!b))),
        _ => Err(RuntimeErrorModel::InvalidSignatureType(op_name(Operator::Not), seq![v])),
    }
}

/// Logical negation of a boolean value.
pub fn not(value: Value) -> (r: EvalResult)
    ensures
        eval_result_model(r) == spec_not(value@),
{
    match value {
        Value::Boolean(b) => Ok(Some(Value::Boolean(!b))),
        value => Err(SplashRuntimeError::InvalidSignatureType(
            str_bytes(op_name_str(Operator::Not)),
            single_value(value),
        )),
    }
}

/// Addition of two numbers, or concatenation of two strings. A sum outside
/// the 64-bit range overflows.
pub open spec fn spec_plus(l: ValueModel, r: ValueModel) -> EvalResultModel {
    match (l, r) {
        (ValueModel::Number(a), ValueModel::Number(b)) => if a + b > i64::MAX || a + b < i64::MIN {
            Err(RuntimeErrorModel::Overflow)
        } else {
            Ok(Some(ValueModel::Number(a + b)))
        },
        (ValueModel::String(a), ValueModel::String(b)) => Ok(Some(ValueModel::String(a + b))),
        _ => Err(RuntimeErrorModel::InvalidSignatureType(op_name(Operator::Plus), seq![l, r])),
    }
}

/// Adds two numbers or concatenates two strings.
pub fn plus(left: Value, right: Value) -> (r: EvalResult)
    ensures
        eval_result_model(r) == spec_plus(left@, right@),
{
    match (left, right) {
        (Value::Number(a), Value::Number(b)) => match a.checked_add(b) {
            Some(c) => Ok(Some(Value::Number(c))),
            None => Err(SplashRuntimeError::Overflow),
        },
        (Value::String(a), Value::String(b)) => {
            let ghost am = a@;
            let mut out = a;
            let mut i: usize = 0;
            while i < b.len()
                invariant
                    i <= b@.len(),
                    out@ == am + b@.take(i as int),
                decreases b@.len() - i,
            {
                out.push(b[i]);
                proof {
                    assert(am + b@.take(i + 1) =~= (am + b@.take(i as int)).push(b@[i as int]));
                }
                i = i + 1;
            }
            proof {
                assert(b@.take(b@.len() as int) =~= b@);
            }
            Ok(Some(Value::String(out)))
        }
        (left, right) => Err(SplashRuntimeError::InvalidSignatureType(
            str_bytes(op_name_str(Operator::Plus)),
            pair_values(left, right),
        )),
    }
}

/// Subtraction of two numbers; a difference outside the 64-bit range
/// overflows.
pub open spec fn spec_minus(l: ValueModel, r: ValueModel) -> EvalResultModel {
    match (l, r) {
        (ValueModel::Number(a), ValueModel::Number(b)) => if a - b > i64::MAX || a - b < i64::MIN {
            Err(RuntimeErrorModel::Overflow)
        } else {
            Ok(Some(ValueModel::Number(a - b)))
        },
        _ => Err(RuntimeErrorModel::InvalidSignatureType(op_name(Operator::Minus), seq![l, r])),
    }
}

/// Subtracts one number from another.
pub fn minus(left: Value, right: Value) -> (r: EvalResult)
    ensures
        eval_result_model(r) == spec_minus(left@, right@),
{
    match (left, right) {
        (Value::Number(a), Value::Number(b)) => match a.checked_sub(b) {
            Some(c) => Ok(Some(Value::Number(c))),
            None => Err(SplashRuntimeError::Overflow),
        },
        (left, right) => Err(SplashRuntimeError::InvalidSignatureType(
            str_bytes(op_name_str(Operator::Minus)),
            pair_values(left, right),
        )),
    }
}

/// Multiplication of two numbers; a product outside the 64-bit range
/// overflows.
pub open spec fn spec_times(l: ValueModel, r: ValueModel) -> EvalResultModel {
    match (l, r) {
        (ValueModel::Number(a), ValueModel::Number(b)) => if a * b > i64::MAX || a * b < i64::MIN {
            Err(RuntimeErrorModel::Overflow)
        } else {
            Ok(Some(ValueModel::Number(a * b)))
        },
        _ => Err(RuntimeErrorModel::InvalidSignatureType(op_name(Operator::Times), seq![l, r])),
    }
}

/// Multiplies two numbers.
pub fn times(left: Value, right: Value) -> (r: EvalResult)
    ensures
        eval_result_model(r) == spec_times(left@, right@),
{
    match (left, right) {
        (Value::Number(a), Value::Number(b)) => match a.checked_mul(b) {
            Some(c) => Ok(Some(Value::Number(c))),
            None => Err(SplashRuntimeError::Overflow),
        },
        (left, right) => Err(SplashRuntimeError::InvalidSignatureType(
            str_bytes(op_name_str(Operator::Times)),
            pair_values(left, right),
        )),
    }
}

/// The quotient of two integers, truncated toward zero, as 64-bit machine
/// division computes it.
pub open spec fn trunc_div(x: int, d: int) -> int {
    if x == 0 {
        0
    } else if x > 0 && d > 0 {
        x / d
    } else if x < 0 && d < 0 {
        (x * -1) / (d * -1)
    } else if x < 0 {
        ((x * -1) / d) * -1
    } else {
        (x / (d * -1)) * -1
    }
}

/// The remainder of two integers with the dividend's sign, as 64-bit
/// machine division computes it.
pub open spec fn trunc_rem(x: int, d: int) -> int {
    if x == 0 {
        0
    } else if x > 0 && d > 0 {
        x % d
    } else if x < 0 && d < 0 {
        ((x * -1) % (d * -1)) * -1
    } else if x < 0 {
        ((x * -1) % d) * -1
    } else {
        x % (d * -1)
    }
}

/// Division of two numbers. Dividing by zero is a distinct fatal error; a
/// quotient outside the 64-bit range overflows.
pub open spec fn spec_divide(l: ValueModel, r: ValueModel) -> EvalResultModel {
    match (l, r) {
        (ValueModel::Number(a), ValueModel::Number(b)) => if b == 0 {
            Err(RuntimeErrorModel::DivisionByZero)
        } else if trunc_div(a, b) > i64::MAX || trunc_div(a, b) < i64::MIN {
            Err(RuntimeErrorModel::Overflow)
        } else {
            Ok(Some(ValueModel::Number(trunc_div(a, b))))
        },
        _ => Err(RuntimeErrorModel::InvalidSignatureType(op_name(Operator::Divide), seq![l, r])),
    }
}

/// Divides one number by another; division by zero is a fatal error.
pub fn divide(left: Value, right: Value) -> (r: EvalResult)
    ensures
        eval_result_model(r) == spec_divide(left@, right@),
{
    match (left, right) {
        (Value::Number(a), Value::Number(b)) => {
            if b == 0 {
                Err(SplashRuntimeError::DivisionByZero)
            } else {
                match a.checked_div(b) {
                    Some(c) => Ok(Some(Value::Number(c))),
                    None => Err(SplashRuntimeError::Overflow),
                }
            }
        }
        (left, right) => Err(SplashRuntimeError::InvalidSignatureType(
            str_bytes(op_name_str(Operator::Divide)),
            pair_values(left, right),
        )),
    }
}

/// Remainder of two numbers. A zero divisor is a distinct fatal error; the
/// one out-of-range case overflows.
pub open spec fn spec_modulo(l: ValueModel, r: ValueModel) -> EvalResultModel {
    match (l, r) {
        (ValueModel::Number(a), ValueModel::Number(b)) => if b == 0 {
            Err(RuntimeErrorModel::DivisionByZero)
        } else if a == i64::MIN && b == -1 {
            Err(RuntimeErrorModel::Overflow)
        } else if trunc_rem(a, b) > i64::MAX || trunc_rem(a, b) < i64::MIN {
            Err(RuntimeErrorModel::Overflow)
        } else {
            Ok(Some(ValueModel::Number(trunc_rem(a, b))))
        },
        _ => Err(RuntimeErrorModel::InvalidSignatureType(op_name(Operator::Modulo), seq![l, r])),
    }
}

/// Takes the remainder of one number by another; a zero divisor is a fatal
/// error.
pub fn modulo(left: Value, right: Value) -> (r: EvalResult)
    ensures
        eval_result_model(r) == spec_modulo(left@, right@),
{
    match (left, right) {
        (Value::Number(a), Value::Number(b)) => {
            if b == 0 {
                Err(SplashRuntimeError::DivisionByZero)
            } else {
                match a.checked_rem(b) {
                    Some(c) => Ok(Some(Value::Number(c))),
                    None => Err(SplashRuntimeError::Overflow),
                }
            }
        }
        (left, right) => Err(SplashRuntimeError::InvalidSignatureType(
            str_bytes(op_name_str(Operator::Modulo)),
            pair_values(left, right),
        )),
    }
}

/// Whether two values of the same primitive kind are equal: two numbers,
/// two booleans, or two strings; any other pairing is a type error.
pub open spec fn spec_equal_test(l: ValueModel, r: ValueModel) -> Option<bool> {
    match (l, r) {
        (ValueModel::Number(a), ValueModel::Number(b)) => Some(a == b),
        (ValueModel::Boolean(a), ValueModel::Boolean(b)) => Some(a == b),
        (ValueModel::String(a), ValueModel::String(b)) => Some(a == b),
        _ => None,
    }
}

/// Equality of two numbers, two booleans, or two strings.
pub open spec fn spec_equal(l: ValueModel, r: ValueModel) -> EvalResultModel {
    match spec_equal_test(l, r) {
        Some(b) => Ok(Some(ValueModel::Boolean(b))),
        None => Err(RuntimeErrorModel::InvalidSignatureType(op_name(Operator::Equal), seq![l, r])),
    }
}

/// Inequality of two numbers, two booleans, or two strings.
pub open spec fn spec_not_equal(l: ValueModel, r: ValueModel) -> EvalResultModel {
    match spec_equal_test(l, r) {
        Some(b) => Ok(Some(ValueModel::Boolean(!b))),
        None => Err(RuntimeErrorModel::InvalidSignatureType(
            op_name(Operator::NotEqual),
            seq![l, r],
        )),
    }
}

/// Compares two numbers, two booleans, or two strings for equality.
pub fn equal(left: Value, right: Value) -> (r: EvalResult)
    ensures
        eval_result_model(r) == spec_equal(left@, right@),
{
    match (left, right) {
        (Value::Number(a), Value::Number(b)) => Ok(Some(Value::Boolean(a == b))),
        (Value::Boolean(a), Value::Boolean(b)) => Ok(Some(Value::Boolean(a == b))),
        (Value::String(a), Value::String(b)) => Ok(Some(Value::Boolean(crate::utils::bytes_eq(
            &a,
            &b,
        )))),
        (left, right) => Err(SplashRuntimeError::InvalidSignatureType(
            str_bytes(op_name_str(Operator::Equal)),
            pair_values(left, right),
        )),
    }
}

/// Compares two numbers, two booleans, or two strings for inequality.
pub fn not_equal(left: Value, right: Value) -> (r: EvalResult)
    ensures
        eval_result_model(r) == spec_not_equal(left@, right@),
{
    match (left, right) {
        (Value::Number(a), Value::Number(b)) => Ok(Some(Value::Boolean(a != b))),
        (Value::Boolean(a), Value::Boolean(b)) => Ok(Some(Value::Boolean(a != b))),
        (Value::String(a), Value::String(b)) => Ok(Some(Value::Boolean(!crate::utils::bytes_eq(
            &a,
            &b,
        )))),
        (left, right) => Err(SplashRuntimeError::InvalidSignatureType(
            str_bytes(op_name_str(Operator::NotEqual)),
            pair_values(left, right),
        )),
    }
}

/// An ordering comparison of two numbers; anything else is a type error.
pub open spec fn spec_compare(op: Operator, l: ValueModel, r: ValueModel) -> EvalResultModel {
    match (l, r) {
        (ValueModel::Number(a), ValueModel::Number(b)) => Ok(Some(ValueModel::Boolean(
            match op {
                Operator::GreaterOrEqual => a >= b,
                Operator::GreaterThan => a > b,
                Operator::LessOrEqual => a <= b,
                _ => a < b,
            },
        ))),
        _ => Err(RuntimeErrorModel::InvalidSignatureType(op_name(op), seq![l, r])),
    }
}

/// Whether one number is at least another.
pub fn greater_or_equal(left: Value, right: Value) -> (r: EvalResult)
    ensures
        eval_result_model(r) == spec_compare(Operator::GreaterOrEqual, left@, right@),
{
    match (left, right) {
        (Value::Number(a), Value::Number(b)) => Ok(Some(Value::Boolean(a >= b))),
        (left, right) => Err(SplashRuntimeError::InvalidSignatureType(
            str_bytes(op_name_str(Operator::GreaterOrEqual)),
            pair_values(left, right),
        )),
    }
}

/// Whether one number exceeds another.
pub fn greater_than(left: Value, right: Value) -> (r: EvalResult)
    ensures
        eval_result_model(r) == spec_compare(Operator::GreaterThan, left@, right@),
{
    match (left, right) {
        (Value::Number(a), Value::Number(b)) => Ok(Some(Value::Boolean(a > b))),
        (left, right) => Err(SplashRuntimeError::InvalidSignatureType(
            str_bytes(op_name_str(Operator::GreaterThan)),
            pair_values(left, right),
        )),
    }
}

/// Whether one number is at most another.
pub fn less_or_equal(left: Value, right: Value) -> (r: EvalResult)
    ensures
        eval_result_model(r) == spec_compare(Operator::LessOrEqual, left@, right@),
{
    match (left, right) {
        (Value::Number(a), Value::Number(b)) => Ok(Some(Value::Boolean(a <= b))),
        (left, right) => Err(SplashRuntimeError::InvalidSignatureType(
            str_bytes(op_name_str(Operator::LessOrEqual)),
            pair_values(left, right),
        )),
    }
}

/// Whether one number is below another.
pub fn less_than(left: Value, right: Value) -> (r: EvalResult)
    ensures
        eval_result_model(r) == spec_compare(Operator::LessThan, left@, right@),
{
    match (left, right) {
        (Value::Number(a), Value::Number(b)) => Ok(Some(Value::Boolean(a < b))),
        (left, right) => Err(SplashRuntimeError::InvalidSignatureType(
            str_bytes(op_name_str(Operator::LessThan)),
            pair_values(left, right),
        )),
    }
}

/// Conjunction of two booleans; both operands are always evaluated before
/// this is applied, so there is no short-circuiting.
pub open spec fn spec_and(l: ValueModel, r: ValueModel) -> EvalResultModel {
    match (l, r) {
        (ValueModel::Boolean(a), ValueModel::Boolean(b)) => Ok(Some(ValueModel::Boolean(a && b))),
        _ => Err(RuntimeErrorModel::InvalidSignatureType(op_name(Operator::And), seq![l, r])),
    }
}

/// Conjunction of two booleans.
pub fn and(left: Value, right: Value) -> (r: EvalResult)
    ensures
        eval_result_model(r) == spec_and(left@, right@),
{
    match (left, right) {
        (Value::Boolean(a), Value::Boolean(b)) => Ok(Some(Value::Boolean(a && b))),
        (left, right) => Err(SplashRuntimeError::InvalidSignatureType(
            str_bytes(op_name_str(Operator::And)),
            pair_values(left, right),
        )),
    }
}

/// Disjunction of two booleans.
pub open spec fn spec_or(l: ValueModel, r: ValueModel) -> EvalResultModel {
    match (l, r) {
        (ValueModel::Boolean(a), ValueModel::Boolean(b)) => Ok(Some(ValueModel::Boolean(a || b))),
        _ => Err(RuntimeErrorModel::InvalidSignatureType(op_name(Operator::Or), seq![l, r])),
    }
}

/// Disjunction of two booleans.
pub fn or(left: Value, right: Value) -> (r: EvalResult)
    ensures
        eval_result_model(r) == spec_or(left@, right@),
{
    match (left, right) {
        (Value::Boolean(a), Value::Boolean(b)) => Ok(Some(Value::Boolean(a || b))),
        (left, right) => Err(SplashRuntimeError::InvalidSignatureType(
            str_bytes(op_name_str(Operator::Or)),
            pair_values(left, right),
        )),
    }
}

/// Writes the display form of its one argument, followed by a newline, and
/// returns nothing. The line produced, or the arity failure.
pub open spec fn spec_print(args: Seq<ValueModel>) -> Result<Seq<u8>, RuntimeErrorModel> {
    if args.len() != 1 {
        Err(RuntimeErrorModel::InvalidSignature(builtin_name(Builtin::Print), 1, args.len() as int))
    } else {
        Ok(value_display(args[0]))
    }
}

/// Appends the display form of its one argument to the output and returns
/// nothing.
pub fn print(arguments: &Vec<Value>, output: &mut Vec<Vec<u8>>) -> (r: EvalResult)
    ensures
        match spec_print(value_models(arguments@)) {
            Ok(line) => eval_result_model(r) == Result::<Option<ValueModel>, RuntimeErrorModel>::Ok(
                None,
            ) && bytes_models(final(output)@) == bytes_models(old(output)@).push(line),
            Err(e) => eval_result_model(r) == Result::<Option<ValueModel>, RuntimeErrorModel>::Err(
                e,
            ) && final(output)@ == old(output)@,
        },
{
    proof {
        lemma_value_models_len(arguments@);
    }
    if arguments.len() != 1 {
        return Err(SplashRuntimeError::InvalidSignature(Builtin::Print.to_bytes(), 1, arguments.len()));
    }
    proof {
        lemma_value_models_index(arguments@, 0);
    }
    let line = display_value(&arguments[0]);
    let ghost o0 = output@;
    output.push(line);
    proof {
        assert(output@.drop_last() =~= o0);
    }
    Ok(None)
}

/// The display form of any one value, as a string value.
pub open spec fn spec_string(args: Seq<ValueModel>) -> EvalResultModel {
    if args.len() != 1 {
        Err(RuntimeErrorModel::InvalidSignature(
            builtin_name(Builtin::String),
            1,
            args.len() as int,
        ))
    } else {
        Ok(Some(ValueModel::String(value_display(args[0]))))
    }
}

/// The display form of its one argument, as a string value.
pub fn string(arguments: &Vec<Value>) -> (r: EvalResult)
    ensures
        eval_result_model(r) == spec_string(value_models(arguments@)),
{
    proof {
        lemma_value_models_len(arguments@);
    }
    if arguments.len() != 1 {
        return Err(SplashRuntimeError::InvalidSignature(
            Builtin::String.to_bytes(),
            1,
            arguments.len(),
        ));
    }
    proof {
        lemma_value_models_index(arguments@, 0);
    }
    Ok(Some(Value::String(display_value(&arguments[0]))))
}

/// The element count of a list or the byte count of a string; anything else
/// is not a list. A count beyond the 64-bit range overflows.
pub open spec fn spec_length(args: Seq<ValueModel>) -> EvalResultModel {
    if args.len() != 1 {
        Err(RuntimeErrorModel::InvalidSignature(
            builtin_name(Builtin::Length),
            1,
            args.len() as int,
        ))
    } else {
        match args[0] {
            ValueModel::List(l) => if l.len() > i64::MAX {
                Err(RuntimeErrorModel::Overflow)
            } else {
                Ok(Some(ValueModel::Number(l.len() as int)))
            },
            ValueModel::String(s) => if s.len() > i64::MAX {
                Err(RuntimeErrorModel::Overflow)
            } else {
                Ok(Some(ValueModel::Number(s.len() as int)))
            },
            _ => Err(RuntimeErrorModel::NotAList(args[0])),
        }
    }
}

/// The element count of a list or the byte count of a string.
pub fn length(arguments: &Vec<Value>) -> (r: EvalResult)
    ensures
        eval_result_model(r) == spec_length(value_models(arguments@)),
{
    proof {
        lemma_value_models_len(arguments@);
    }
    if arguments.len() != 1 {
        return Err(SplashRuntimeError::InvalidSignature(
            Builtin::Length.to_bytes(),
            1,
            arguments.len(),
        ));
    }
    proof {
        lemma_value_models_index(arguments@, 0);
    }
    let n: usize = match &arguments[0] {
        Value::List(l) => {
            proof {
                lemma_value_models_len(l@);
            }
            l.len()
        }
        Value::String(s) => s.len(),
        _ => {
            return Err(SplashRuntimeError::NotAList(arguments[0].duplicate()));
        }
    };
    if (n as u128) > (i64::MAX as u128) {
        return Err(SplashRuntimeError::Overflow);
    }
    Ok(Some(Value::Number(n as i64)))
}

/// A new list with one more value appended; the argument list itself is not
/// mutated. A non-list first argument is not a list.
pub open spec fn spec_push(args: Seq<ValueModel>) -> EvalResultModel {
    if args.len() != 2 {
        Err(RuntimeErrorModel::InvalidSignature(builtin_name(Builtin::Push), 2, args.len() as int))
    } else {
        match args[0] {
            ValueModel::List(l) => Ok(Some(ValueModel::List(l.push(args[1])))),
            _ => Err(RuntimeErrorModel::NotAList(args[0])),
        }
    }
}

/// A new list holding the first argument's elements with the second
/// argument appended.
pub fn push(arguments: &Vec<Value>) -> (r: EvalResult)
    ensures
        eval_result_model(r) == spec_push(value_models(arguments@)),
{
    proof {
        lemma_value_models_len(arguments@);
    }
    if arguments.len() != 2 {
        return Err(SplashRuntimeError::InvalidSignature(
            Builtin::Push.to_bytes(),
            2,
            arguments.len(),
        ));
    }
    proof {
        lemma_value_models_index(arguments@, 0);
        lemma_value_models_index(arguments@, 1);
    }
    let first = arguments[0].duplicate();
    match first {
        Value::List(mut l) => {
            let ghost l0 = l@;
            l.push(arguments[1].duplicate());
            proof {
                assert(l@.drop_last() =~= l0);
            }
            Ok(Some(Value::List(l)))
        }
        other => Err(SplashRuntimeError::NotAList(other)),
    }
}

/// A new list with the last element removed; an empty list stays empty. A
/// non-list argument is not a list.
pub open spec fn spec_pop(args: Seq<ValueModel>) -> EvalResultModel {
    if args.len() != 1 {
        Err(RuntimeErrorModel::InvalidSignature(builtin_name(Builtin::Pop), 1, args.len() as int))
    } else {
        match args[0] {
            ValueModel::List(l) => Ok(Some(ValueModel::List(
                if l.len() > 0 {
                    l.drop_last()
                } else {
                    l
                },
            ))),
            _ => Err(RuntimeErrorModel::NotAList(args[0])),
        }
    }
}

/// A new list holding the argument's elements without the last one.
pub fn pop(arguments: &Vec<Value>) -> (r: EvalResult)
    ensures
        eval_result_model(r) == spec_pop(value_models(arguments@)),
{
    proof {
        lemma_value_models_len(arguments@);
    }
    if arguments.len() != 1 {
        return Err(SplashRuntimeError::InvalidSignature(
            Builtin::Pop.to_bytes(),
            1,
            arguments.len(),
        ));
    }
    proof {
        lemma_value_models_index(arguments@, 0);
    }
    let first = arguments[0].duplicate();
    match first {
        Value::List(mut l) => {
            let ghost l0 = l@;
            proof {
                lemma_value_models_len(l0);
            }
            if l.len() > 0 {
                l.pop();
            }
            proof {
                if l0.len() > 0 {
                    assert(value_models(l0).drop_last() =~= value_models(l0.drop_last()));
                }
            }
            Ok(Some(Value::List(l)))
        }
        other => Err(SplashRuntimeError::NotAList(other)),
    }
}

/// The numbers `0` up to but excluding `n`, in order; empty when `n` is not
/// positive.
pub open spec fn range_values(n: int) -> Seq<ValueModel>
    decreases n,
{
    if n <= 0 {
        seq![]
    } else {
        range_values(n - 1).push(ValueModel::Number(n - 1))
    }
}

/// A list of the numbers `0` up to but excluding `n`; a non-number argument
/// is a type error.
pub open spec fn spec_range(args: Seq<ValueModel>) -> EvalResultModel {
    if args.len() != 1 {
        Err(RuntimeErrorModel::InvalidSignature(builtin_name(Builtin::Range), 1, args.len() as int))
    } else {
        match args[0] {
            ValueModel::Number(n) => Ok(Some(ValueModel::List(range_values(n)))),
            _ => Err(RuntimeErrorModel::InvalidSignatureType(builtin_name(Builtin::Range), args)),
        }
    }
}

/// A list of the numbers `0` up to but excluding its one numeric argument.
pub fn range(arguments: &Vec<Value>) -> (r: EvalResult)
    ensures
        eval_result_model(r) == spec_range(value_models(arguments@)),
{
    proof {
        lemma_value_models_len(arguments@);
    }
    if arguments.len() != 1 {
        return Err(SplashRuntimeError::InvalidSignature(
            Builtin::Range.to_bytes(),
            1,
            arguments.len(),
        ));
    }
    proof {
        lemma_value_models_index(arguments@, 0);
    }
    match &arguments[0] {
        Value::Number(n) => {
            let bound: i64 = *n;
            let mut items: Vec<Value> = Vec::new();
            let mut i: i64 = 0;
            proof {
                assert(value_models(items@) =~= range_values(0));
            }
            while i < bound
                invariant
                    0 <= i,
                    bound > 0 ==> i <= bound,
                    bound <= 0 ==> i == 0,
                    value_models(items@) =~= range_values(i as int),
                decreases bound - i,
            {
                let ghost t0 = items@;
                items.push(Value::Number(i));
                proof {
                    assert(items@.drop_last() =~= t0);
                    assert(value_model(items@.last()) == ValueModel::Number(i as int));
                    assert(range_values(i + 1) == range_values(i as int).push(ValueModel::Number(
                        i as int,
                    )));
                    assert(value_models(items@) =~= range_values(i + 1));
                }
                i = i + 1;
            }
            proof {
                if bound <= 0 {
                    assert(range_values(bound as int) =~= range_values(0));
                }
            }
            let result = Value::List(items);
            proof {
                assert(result@ == ValueModel::List(range_values(bound as int)));
            }
            Ok(Some(result))
        }
        _ => Err(SplashRuntimeError::InvalidSignatureType(
            Builtin::Range.to_bytes(),
            crate::run::value::duplicate_values(arguments),
        )),
    }
}

} // verus!
