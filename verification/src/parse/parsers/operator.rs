use vstd::prelude::*;

use crate::parse::error::{ErrorKind, ParseErrorModel, ParseOutcome, SplashParseError};

verus! {

/// The closed set of unary and binary operators.
#[derive(Clone, Copy, Debug, PartialEq, Eq, Structural)]
pub enum Operator {
    // Unary
    Not,
    // Binary
    Plus,
    Minus,
    Times,
    Divide,
    Modulo,
    Equal,
    NotEqual,
    GreaterOrEqual,
    GreaterThan,
    LessOrEqual,
    LessThan,
    And,
    Or,
}

/// The static precedence level of an operator; a higher level binds
/// tighter and sits deeper in the parsed tree.
pub open spec fn spec_priority(op: Operator) -> int {
    match op {
        Operator::Not => 4,
        Operator::Times | Operator::Divide | Operator::And => 3,
        Operator::Plus | Operator::Minus | Operator::Or => 2,
        Operator::Modulo => 1,
        Operator::Equal | Operator::NotEqual | Operator::GreaterOrEqual | Operator::GreaterThan
            | Operator::LessOrEqual | Operator::LessThan => 0,
    }
}

impl Operator {
    /// The static precedence level of this operator.
    pub fn priority(&self) -> (p: u32)
        ensures
            p as int == spec_priority(*self),
    {
        match self {
            Operator::Not => 4,
            Operator::Times | Operator::Divide | Operator::And => 3,
            Operator::Plus | Operator::Minus | Operator::Or => 2,
            Operator::Modulo => 1,
            Operator::Equal | Operator::NotEqual | Operator::GreaterOrEqual
                | Operator::GreaterThan | Operator::LessOrEqual | Operator::LessThan => 0,
        }
    }
}

/// Grammar rule for a unary operator symbol: `!`.
pub open spec fn spec_unary_operator(input: Seq<u8>, pos: int) -> ParseOutcome<Operator> {
    if 0 <= pos < input.len() && input[pos] == '!' as u8 {
        ParseOutcome::Parsed(Operator::Not, pos + 1)
    } else {
        ParseOutcome::Failed(ParseErrorModel::Nom(pos, ErrorKind::Char))
    }
}

/// Whether the two bytes `a b` occur at `pos`.
pub open spec fn two_bytes_at(input: Seq<u8>, pos: int, a: u8, b: u8) -> bool {
    0 <= pos && pos + 2 <= input.len() && input[pos] == a && input[pos + 1] == b
}

/// Grammar rule for a binary operator symbol. Alternatives are tried in a
/// fixed order; two-character symbols are tried before any one-character
/// symbol they share a prefix with, so `>=` wins over `>` and `<=` over `<`.
pub open spec fn spec_binary_operator(input: Seq<u8>, pos: int) -> ParseOutcome<Operator> {
    if 0 <= pos < input.len() && input[pos] == '+' as u8 {
        ParseOutcome::Parsed(Operator::Plus, pos + 1)
    } else if 0 <= pos < input.len() && input[pos] == '-' as u8 {
        ParseOutcome::Parsed(Operator::Minus, pos + 1)
    } else if 0 <= pos < input.len() && input[pos] == '*' as u8 {
        ParseOutcome::Parsed(Operator::Times, pos + 1)
    } else if 0 <= pos < input.len() && input[pos] == '/' as u8 {
        ParseOutcome::Parsed(Operator::Divide, pos + 1)
    } else if 0 <= pos < input.len() && input[pos] == '%' as u8 {
        ParseOutcome::Parsed(Operator::Modulo, pos + 1)
    } else if two_bytes_at(input, pos, '=' as u8, '=' as u8) {
        ParseOutcome::Parsed(Operator::Equal, pos + 2)
    } else if two_bytes_at(input, pos, '!' as u8, '=' as u8) {
        ParseOutcome::Parsed(Operator::NotEqual, pos + 2)
    } else if two_bytes_at(input, pos, '>' as u8, '=' as u8) {
        ParseOutcome::Parsed(Operator::GreaterOrEqual, pos + 2)
    } else if 0 <= pos < input.len() && input[pos] == '>' as u8 {
        ParseOutcome::Parsed(Operator::GreaterThan, pos + 1)
    } else if two_bytes_at(input, pos, '<' as u8, '=' as u8) {
        ParseOutcome::Parsed(Operator::LessOrEqual, pos + 2)
    } else if 0 <= pos < input.len() && input[pos] == '<' as u8 {
        ParseOutcome::Parsed(Operator::LessThan, pos + 1)
    } else if two_bytes_at(input, pos, '&' as u8, '&' as u8) {
        ParseOutcome::Parsed(Operator::And, pos + 2)
    } else if two_bytes_at(input, pos, '|' as u8, '|' as u8) {
        ParseOutcome::Parsed(Operator::Or, pos + 2)
    } else {
        ParseOutcome::Failed(ParseErrorModel::Nom(pos, ErrorKind::Tag))
    }
}

/// Recognizes a unary operator symbol at `pos`.
pub fn unary_operator(input: &Vec<u8>, pos: usize) -> (r: Result<
    (Operator, usize),
    SplashParseError,
>)
    requires
        pos <= input@.len(),
    ensures
        match r {
            Ok((op, p)) => spec_unary_operator(input@, pos as int) == ParseOutcome::Parsed(
                op,
                p as int,
            ) && pos < p <= input@.len(),
            Err(e) => spec_unary_operator(input@, pos as int) == ParseOutcome::<Operator>::Failed(e@),
        },
{
    if pos < input.len() && input[pos] == '!' as u8 {
        Ok((Operator::Not, pos + 1))
    } else {
        Err(SplashParseError::Nom(pos, ErrorKind::Char))
    }
}

/// Recognizes a binary operator symbol at `pos`.
pub fn binary_operator(input: &Vec<u8>, pos: usize) -> (r: Result<
    (Operator, usize),
    SplashParseError,
>)
    requires
        pos <= input@.len(),
    ensures
        match r {
            Ok((op, p)) => spec_binary_operator(input@, pos as int) == ParseOutcome::Parsed(
                op,
                p as int,
            ) && pos < p <= input@.len(),
            Err(e) => spec_binary_operator(input@, pos as int) == ParseOutcome::<Operator>::Failed(
                e@,
            ),
        },
{
    if pos < input.len() {
        let c = input[pos];
        if c == '+' as u8 {
            return Ok((Operator::Plus, pos + 1));
        }
        if c == '-' as u8 {
            return Ok((Operator::Minus, pos + 1));
        }
        if c == '*' as u8 {
            return Ok((Operator::Times, pos + 1));
        }
        if c == '/' as u8 {
            return Ok((Operator::Divide, pos + 1));
        }
        if c == '%' as u8 {
            return Ok((Operator::Modulo, pos + 1));
        }
        let two = pos + 1 < input.len();
        if c == '=' as u8 && two && input[pos + 1] == '=' as u8 {
            return Ok((Operator::Equal, pos + 2));
        }
        if c == '!' as u8 && two && input[pos + 1] == '=' as u8 {
            return Ok((Operator::NotEqual, pos + 2));
        }
        if c == '>' as u8 && two && input[pos + 1] == '=' as u8 {
            return Ok((Operator::GreaterOrEqual, pos + 2));
        }
        if c == '>' as u8 {
            return Ok((Operator::GreaterThan, pos + 1));
        }
        if c == '<' as u8 && two && input[pos + 1] == '=' as u8 {
            return Ok((Operator::LessOrEqual, pos + 2));
        }
        if c == '<' as u8 {
            return Ok((Operator::LessThan, pos + 1));
        }
        if c == '&' as u8 && two && input[pos + 1] == '&' as u8 {
            return Ok((Operator::And, pos + 2));
        }
        if c == '|' as u8 && two && input[pos + 1] == '|' as u8 {
            return Ok((Operator::Or, pos + 2));
        }
    }
    Err(SplashParseError::Nom(pos, ErrorKind::Tag))
}

} // verus!
