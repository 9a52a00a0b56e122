use vstd::prelude::*;

use crate::parse::error::rem;

verus! {

/// Whether a byte is whitespace: space, tab, carriage return, or newline.
pub open spec fn is_space(b: u8) -> bool {
    b == 32 || b == 9 || b == 13 || b == 10
}

/// The length of the whitespace run starting at `pos`.
pub open spec fn ws_len(input: Seq<u8>, pos: int) -> nat
    decreases rem(input, pos),
{
    if 0 <= pos < input.len() && is_space(input[pos]) {
        (1 + ws_len(input, pos + 1)) as nat
    } else {
        0
    }
}

/// Skips the whitespace run starting at `pos`.
pub fn whitespace(input: &Vec<u8>, pos: usize) -> (r: usize)
    requires
        pos <= input@.len(),
    ensures
        r == pos + ws_len(input@, pos as int),
        pos <= r <= input@.len(),
{
    let mut i: usize = pos;
    while i < input.len() && (input[i] == 32 || input[i] == 9 || input[i] == 13 || input[i] == 10)
        invariant
            pos <= i <= input@.len(),
            pos + ws_len(input@, pos as int) == i + ws_len(input@, i as int),
        decreases input@.len() - i,
    {
        i = i + 1;
    }
    proof {
        assert(ws_len(input@, i as int) == 0);
    }
    i
}

} // verus!
