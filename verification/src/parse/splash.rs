use vstd::prelude::*;

use crate::parse::error::{ParseOutcome, SplashParseError};
use crate::parse::parsers::program::{program, spec_program, Program};
use crate::parse::parsers::statement::StmtModel;

verus! {

/// The language's parser: source bytes in, one whole program out.
pub struct SplashParser;

impl SplashParser {
    /// Parses the entire input as one program.
    pub fn parse(&self, input: &Vec<u8>) -> (r: Result<Program, SplashParseError>)
        ensures
            match r {
                Ok(b) => spec_program(input@) == ParseOutcome::Parsed(b@, input@.len() as int),
                Err(e) => spec_program(input@) == ParseOutcome::<Seq<StmtModel>>::Failed(e@),
            },
    {
        program(input)
    }
}

} // verus!
