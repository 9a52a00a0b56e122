use vstd::prelude::*;

use crate::parse::parsers::block::Block;
use crate::parse::parsers::statement::StmtModel;
use crate::utils::{bytes_models, copy_names, str_bytes};

verus! {

/// One of the fixed native operations preloaded into the default scope.
#[derive(Clone, Copy, Debug, PartialEq, Eq, Structural)]
pub enum Builtin {
    Print,
    String,
    Length,
    Push,
    Pop,
    Range,
}

/// The characters of a built-in function's registered name.
pub open spec fn builtin_chars(b: Builtin) -> Seq<char> {
    match b {
        Builtin::Print => seq!['p', 'r', 'i', 'n', 't'],
        Builtin::String => seq!['s', 't', 'r', 'i', 'n', 'g'],
        Builtin::Length => seq!['l', 'e', 'n', 'g', 't', 'h'],
        Builtin::Push => seq!['p', 'u', 's', 'h'],
        Builtin::Pop => seq!['p', 'o', 'p'],
        Builtin::Range => seq!['r', 'a', 'n', 'g', 'e'],
    }
}

/// The bytes of a built-in function's registered name.
pub open spec fn builtin_name(b: Builtin) -> Seq<u8> {
    builtin_chars(b).map_values(|c: char| c as u8)
}

impl Builtin {
    /// The name this built-in is registered under.
    pub fn as_str(&self) -> (r: &'static str)
        ensures
            r@ == builtin_chars(*self),
    {
        match self {
            Builtin::Print => {
                proof {
                    reveal_strlit("print");
                }
                "print"
            }
            Builtin::String => {
                proof {
                    reveal_strlit("string");
                }
                "string"
            }
            Builtin::Length => {
                proof {
                    reveal_strlit("length");
                }
                "length"
            }
            Builtin::Push => {
                proof {
                    reveal_strlit("push");
                }
                "push"
            }
            Builtin::Pop => {
                proof {
                    reveal_strlit("pop");
                }
                "pop"
            }
            Builtin::Range => {
                proof {
                    reveal_strlit("range");
                }
                "range"
            }
        }
    }

    /// The bytes of the name this built-in is registered under.
    pub fn to_bytes(&self) -> (r: Vec<u8>)
        ensures
            r@ == builtin_name(*self),
    {
        str_bytes(self.as_str())
    }
}

/// A callable function: a reference to a fixed native operation, or a custom
/// function with its parameter names and body block.
pub enum Function {
    BuiltIn(Builtin),
    Custom(Vec<Vec<u8>>, Block),
}

/// Mathematical model of a callable function.
pub enum FunctionModel {
    BuiltIn(Builtin),
    Custom(Seq<Seq<u8>>, Seq<StmtModel>),
}

impl View for Function {
    type V = FunctionModel;

    open spec fn view(&self) -> FunctionModel {
        match self {
            Function::BuiltIn(b) => FunctionModel::BuiltIn(*b),
            Function::Custom(params, body) => FunctionModel::Custom(bytes_models(params@), body@),
        }
    }
}

impl Function {
    /// An identical deep copy of this function.
    pub fn duplicate(&self) -> (r: Function)
        ensures
            r@ == self@,
    {
        match self {
            Function::BuiltIn(b) => Function::BuiltIn(*b),
            Function::Custom(params, body) => Function::Custom(
                copy_names(params),
                body.duplicate(),
            ),
        }
    }
}

} // verus!
