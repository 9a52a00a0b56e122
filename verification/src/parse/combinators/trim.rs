use vstd::prelude::*;

use crate::parse::combinators::whitespace::{whitespace, ws_len};
use crate::parse::error::rem;
use crate::parse::parsers::comment::{comment, spec_comment};
use crate::parse::error::ParseOutcome;

verus! {

/// The length of the trivia run at `pos`: whitespace and comments, in any
/// interleaving, are skippable before and after any token.
pub open spec fn trivia_len(input: Seq<u8>, pos: int) -> nat
    decreases rem(input, pos),
{
    let w = ws_len(input, pos) as int;
    match spec_comment(input, pos + w) {
        ParseOutcome::Parsed(_, p2) => if p2 > pos {
            ((p2 - pos) + trivia_len(input, p2)) as nat
        } else {
            w as nat
        },
        ParseOutcome::Failed(_) => w as nat,
    }
}

/// The offset just past the trivia run at `pos`.
pub open spec fn trivia_end(input: Seq<u8>, pos: int) -> int {
    pos + trivia_len(input, pos)
}

/// Skips the trivia run at `pos`: whitespace and comments in any
/// interleaving.
pub fn trim(input: &Vec<u8>, pos: usize) -> (r: usize)
    requires
        pos <= input@.len(),
    ensures
        r == trivia_end(input@, pos as int),
        pos <= r <= input@.len(),
{
    let mut i: usize = pos;
    loop
        invariant
            pos <= i <= input@.len(),
            trivia_end(input@, pos as int) == trivia_end(input@, i as int),
        decreases input@.len() - i,
    {
        let w = whitespace(input, i);
        match comment(input, w) {
            Ok(p2) => {
                proof {
                    assert(trivia_end(input@, i as int) == trivia_end(input@, p2 as int));
                }
                i = p2;
            }
            Err(_) => {
                proof {
                    assert(trivia_len(input@, i as int) == ws_len(input@, i as int));
                }
                return w;
            }
        }
    }
}

} // verus!
