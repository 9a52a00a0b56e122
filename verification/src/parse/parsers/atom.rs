use vstd::prelude::*;

use crate::parse::error::{deeper, spec_deeper, ParseOutcome, SplashParseError};
use crate::parse::parsers::identifier::{identifier, spec_identifier};
use crate::parse::parsers::literal::{literal, spec_literal, Literal, LiteralModel};
use crate::utils::copy_bytes;

verus! {

/// The smallest expression form: a literal or a bare identifier reference.
pub enum Atom {
    Literal(Literal),
    Identifier(Vec<u8>),
}

/// Mathematical model of an atom.
pub enum AtomModel {
    Literal(LiteralModel),
    Identifier(Seq<u8>),
}

impl View for Atom {
    type V = AtomModel;

    open spec fn view(&self) -> AtomModel {
        match self {
            Atom::Literal(l) => AtomModel::Literal(l@),
            Atom::Identifier(name) => AtomModel::Identifier(name@),
        }
    }
}

impl Atom {
    /// An identical copy of this atom.
    pub fn duplicate(&self) -> (r: Self)
        ensures
            r@ == self@,
    {
        match self {
            Atom::Literal(l) => Atom::Literal(l.duplicate()),
            Atom::Identifier(name) => Atom::Identifier(copy_bytes(name)),
        }
    }
}

/// Grammar rule for an atom: a literal, or else an identifier reference;
/// when both fail, the failure that reached deepest wins.
pub open spec fn spec_atom(input: Seq<u8>, pos: int) -> ParseOutcome<AtomModel> {
    match spec_literal(input, pos) {
        ParseOutcome::Parsed(l, p) => ParseOutcome::Parsed(AtomModel::Literal(l), p),
        ParseOutcome::Failed(e1) => match spec_identifier(input, pos) {
            ParseOutcome::Parsed(name, p) => ParseOutcome::Parsed(AtomModel::Identifier(name), p),
            ParseOutcome::Failed(e2) => ParseOutcome::Failed(spec_deeper(e1, e2)),
        },
    }
}

/// Recognizes an atom at `pos`: a literal, or else an identifier.
pub fn atom(input: &Vec<u8>, pos: usize) -> (r: Result<(Atom, usize), SplashParseError>)
    requires
        pos <= input@.len(),
    ensures
        match r {
            Ok((a, p)) => spec_atom(input@, pos as int) == ParseOutcome::Parsed(a@, p as int)
                && pos < p <= input@.len(),
            Err(e) => spec_atom(input@, pos as int) == ParseOutcome::<AtomModel>::Failed(e@),
        },
{
    let e1 = match literal(input, pos) {
        Ok((l, p)) => {
            return Ok((Atom::Literal(l), p));
        }
        Err(e) => e,
    };
    let e2 = match identifier(input, pos) {
        Ok((name, p)) => {
            return Ok((Atom::Identifier(name), p));
        }
        Err(e) => e,
    };
    Err(deeper(e1, e2))
}

} // verus!
