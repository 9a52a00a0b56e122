use vstd::prelude::*;

use crate::parse::error::{ErrorKind, ParseErrorModel, ParseOutcome, SplashParseError};
use crate::parse::parsers::block::{block, spec_block, Block};
use crate::parse::parsers::statement::StmtModel;

verus! {

/// A whole program: the root of a parsed file is itself one block.
pub type Program = Block;

/// Grammar rule for a program: one block covering the entire input; any
/// trailing unparsed text fails where it starts.
pub open spec fn spec_program(input: Seq<u8>) -> ParseOutcome<Seq<StmtModel>> {
    match spec_block(input, 0) {
        ParseOutcome::Parsed(b, p) => if p == input.len() {
            ParseOutcome::Parsed(b, p)
        } else {
            ParseOutcome::Failed(ParseErrorModel::Nom(p, ErrorKind::Eof))
        },
        ParseOutcome::Failed(e) => ParseOutcome::Failed(e),
    }
}

/// Parses a whole program: one block that must consume the entire input.
pub fn program(input: &Vec<u8>) -> (r: Result<Program, SplashParseError>)
    ensures
        match r {
            Ok(b) => spec_program(input@) == ParseOutcome::Parsed(b@, input@.len() as int),
            Err(e) => spec_program(input@) == ParseOutcome::<Seq<StmtModel>>::Failed(e@),
        },
{
    match block(input, 0) {
        Ok((b, p)) => {
            if p == input.len() {
                Ok(b)
            } else {
                Err(SplashParseError::Nom(p, ErrorKind::Eof))
            }
        }
        Err(e) => Err(e),
    }
}

} // verus!
