use vstd::prelude::*;

use crate::parse::error::{ParseOutcome, SplashParseError};
use crate::parse::parsers::operation::{parse_parens_chain, spec_parens_chain, Operand, OperandModel};

verus! {

/// Recognizes a parenthesized operator chain at `pos`: `(`, a trimmed
/// chain, `)`; grouping resets precedence scoping, and a chain of a single
/// operand is legal.
pub fn parentheses(input: &Vec<u8>, pos: usize) -> (r: Result<(Operand, usize), SplashParseError>)
    requires
        pos <= input@.len(),
    ensures
        match r {
            Ok((o, p)) => spec_parens_chain(input@, pos as int) == ParseOutcome::Parsed(
                o@,
                p as int,
            ) && pos < p <= input@.len(),
            Err(e) => spec_parens_chain(input@, pos as int) == ParseOutcome::<
                OperandModel,
            >::Failed(e@),
        },
{
    parse_parens_chain(input, pos)
}

} // verus!
