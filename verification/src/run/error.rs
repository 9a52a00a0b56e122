use vstd::prelude::*;

use crate::run::value::{value_models, Value, ValueModel};

verus! {

/// A runtime failure. Any of these aborts evaluation of the whole program
/// at once; open scopes are still unwound on the way out.
pub enum SplashRuntimeError {
    /// An identifier was read or assigned that no enclosing scope binds.
    NotDefined(Vec<u8>),
    /// An expression had to produce a value but produced none.
    NoValue,
    /// A named binding was used at the wrong type.
    InvalidType(Vec<u8>),
    /// A function was called with the wrong number of arguments: the name,
    /// the expected count, and the count provided.
    InvalidSignature(Vec<u8>, usize, usize),
    /// A function or operator was applied to values of the wrong type: the
    /// name and the offending values.
    InvalidSignatureType(Vec<u8>, Vec<Value>),
    /// A condition evaluated to something other than a boolean.
    InvalidPredicate(Value),
    /// Division or modulo by zero.
    DivisionByZero,
    /// A value that had to be a list is not one.
    NotAList(Value),
    /// An index that had to be a number is not one.
    NotAnIndex(Value),
    /// A list was indexed outside its bounds.
    OutOfRange(Value),
    /// A 64-bit arithmetic operation overflowed.
    Overflow,
    /// The step budget given to the run was exhausted before it finished.
    OutOfFuel,
}

/// Mathematical model of a runtime failure.
pub enum RuntimeErrorModel {
    NotDefined(Seq<u8>),
    NoValue,
    InvalidType(Seq<u8>),
    InvalidSignature(Seq<u8>, int, int),
    InvalidSignatureType(Seq<u8>, Seq<ValueModel>),
    InvalidPredicate(ValueModel),
    DivisionByZero,
    NotAList(ValueModel),
    NotAnIndex(ValueModel),
    OutOfRange(ValueModel),
    Overflow,
    OutOfFuel,
}

impl View for SplashRuntimeError {
    type V = RuntimeErrorModel;

    open spec fn view(&self) -> RuntimeErrorModel {
        match self {
            SplashRuntimeError::NotDefined(name) => RuntimeErrorModel::NotDefined(name@),
            SplashRuntimeError::NoValue => RuntimeErrorModel::NoValue,
            SplashRuntimeError::InvalidType(name) => RuntimeErrorModel::InvalidType(name@),
            SplashRuntimeError::InvalidSignature(name, expected, actual) =>
                RuntimeErrorModel::InvalidSignature(name@, *expected as int, *actual as int),
            SplashRuntimeError::InvalidSignatureType(name, values) =>
                RuntimeErrorModel::InvalidSignatureType(name@, value_models(values@)),
            SplashRuntimeError::InvalidPredicate(v) => RuntimeErrorModel::InvalidPredicate(v@),
            SplashRuntimeError::DivisionByZero => RuntimeErrorModel::DivisionByZero,
            SplashRuntimeError::NotAList(v) => RuntimeErrorModel::NotAList(v@),
            SplashRuntimeError::NotAnIndex(v) => RuntimeErrorModel::NotAnIndex(v@),
            SplashRuntimeError::OutOfRange(v) => RuntimeErrorModel::OutOfRange(v@),
            SplashRuntimeError::Overflow => RuntimeErrorModel::Overflow,
            SplashRuntimeError::OutOfFuel => RuntimeErrorModel::OutOfFuel,
        }
    }
}

} // verus!
