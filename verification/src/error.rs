use vstd::prelude::*;

use crate::parse::error::{ParseErrorModel, SplashParseError};
use crate::run::error::{RuntimeErrorModel, SplashRuntimeError};

verus! {

/// Any failure the language can report: a parse failure or a runtime
/// failure; the two taxonomies are never mixed.
pub enum SplashError {
    Parse(SplashParseError),
    Runtime(SplashRuntimeError),
}

/// Mathematical model of a language failure.
pub enum SplashErrorModel {
    Parse(ParseErrorModel),
    Runtime(RuntimeErrorModel),
}

impl View for SplashError {
    type V = SplashErrorModel;

    open spec fn view(&self) -> SplashErrorModel {
        match self {
            SplashError::Parse(e) => SplashErrorModel::Parse(e@),
            SplashError::Runtime(e) => SplashErrorModel::Runtime(e@),
        }
    }
}

impl From<SplashParseError> for SplashError {
    /// Wraps a parse failure.
    fn from(value: SplashParseError) -> (r: Self) {
        SplashError::Parse(value)
    }
}

impl vstd::std_specs::convert::FromSpecImpl<SplashParseError> for SplashError {
    open spec fn obeys_from_spec() -> bool {
        true
    }

    open spec fn from_spec(e: SplashParseError) -> SplashError {
        SplashError::Parse(e)
    }
}

impl From<SplashRuntimeError> for SplashError {
    /// Wraps a runtime failure.
    fn from(value: SplashRuntimeError) -> (r: Self) {
        SplashError::Runtime(value)
    }
}

impl vstd::std_specs::convert::FromSpecImpl<SplashRuntimeError> for SplashError {
    open spec fn obeys_from_spec() -> bool {
        true
    }

    open spec fn from_spec(e: SplashRuntimeError) -> SplashError {
        SplashError::Runtime(e)
    }
}

} // verus!
