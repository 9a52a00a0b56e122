use vstd::prelude::*;

use crate::parse::parsers::program::Program;
use crate::run::block::{run, spec_run_block, RunOutcome};
use crate::run::context::{initial_context, Context};
use crate::run::error::SplashRuntimeError;
use crate::utils::bytes_models;

verus! {

/// A parsed program together with the means to execute it.
pub struct Runtime {
    pub program: Program,
}

impl Runtime {
    /// A runtime for the given program.
    pub fn new(program: Program) -> (r: Self)
        ensures
            r.program@ == program@,
    {
        Runtime { program }
    }

    /// Runs the program against a fresh default context with the given step
    /// budget, returning the lines printed and how the run ended. A run that
    /// exhausts the budget fails with the fuel failure and can be retried
    /// with a larger budget.
    pub fn start(&self, fuel: u64) -> (r: (Vec<Vec<u8>>, Result<(), SplashRuntimeError>))
        ensures
            match spec_run_block(self.program@, initial_context(), fuel as nat) {
                RunOutcome::Ret(_, m) => r.1 matches Ok(()) && bytes_models(r.0@) == m.output,
                RunOutcome::Done(m) => r.1 matches Ok(()) && bytes_models(r.0@) == m.output,
                RunOutcome::Fail(e, m) => r.1 matches Err(er) && er@ == e && bytes_models(r.0@)
                    == m.output,
            },
    {
        let mut context = Context::new();
        let result = run(&self.program, &mut context, fuel);
        let output = context.output;
        match result {
            Ok(_) => (output, Ok(())),
            Err(e) => (output, Err(e)),
        }
    }
}

} // verus!
