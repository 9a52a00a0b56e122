use vstd::prelude::*;

use crate::parse::error::{rem, ErrorKind, ParseErrorModel, ParseOutcome, SplashParseError};

verus! {

/// Whether a byte may start an identifier: a letter or an underscore.
pub open spec fn is_ident_start(b: u8) -> bool {
    (65 <= b <= 90) || (97 <= b <= 122) || b == 95
}

/// Whether a byte may continue an identifier: a letter, a digit, or an
/// underscore.
pub open spec fn is_ident_char(b: u8) -> bool {
    is_ident_start(b) || (48 <= b <= 57)
}

/// The length of the identifier-continuation run at `pos`.
pub open spec fn ident_len(input: Seq<u8>, pos: int) -> nat
    decreases rem(input, pos),
{
    if 0 <= pos < input.len() && is_ident_char(input[pos]) {
        (1 + ident_len(input, pos + 1)) as nat
    } else {
        0
    }
}

/// Grammar rule for an identifier: a letter or underscore followed by any
/// run of letters, digits and underscores.
pub open spec fn spec_identifier(input: Seq<u8>, pos: int) -> ParseOutcome<Seq<u8>> {
    if 0 <= pos < input.len() && is_ident_start(input[pos]) {
        let end = pos + 1 + ident_len(input, pos + 1);
        ParseOutcome::Parsed(input.subrange(pos, end), end)
    } else {
        ParseOutcome::Failed(ParseErrorModel::Nom(pos, ErrorKind::Tag))
    }
}

fn ident_start_at(input: &Vec<u8>, pos: usize) -> (r: bool)
    requires
        pos <= input@.len(),
    ensures
        r == (pos < input@.len() && is_ident_start(input@[pos as int])),
{
    pos < input.len() && ((65 <= input[pos] && input[pos] <= 90) || (97 <= input[pos] && input[pos]
        <= 122) || input[pos] == 95)
}

fn ident_char_at(input: &Vec<u8>, pos: usize) -> (r: bool)
    requires
        pos <= input@.len(),
    ensures
        r == (pos < input@.len() && is_ident_char(input@[pos as int])),
{
    ident_start_at(input, pos) || (pos < input.len() && 48 <= input[pos] && input[pos] <= 57)
}

/// Recognizes an identifier at `pos`, returning its bytes.
pub fn identifier(input: &Vec<u8>, pos: usize) -> (r: Result<(Vec<u8>, usize), SplashParseError>)
    requires
        pos <= input@.len(),
    ensures
        match r {
            Ok((name, p)) => spec_identifier(input@, pos as int) == ParseOutcome::Parsed(
                name@,
                p as int,
            ) && pos < p <= input@.len(),
            Err(e) => spec_identifier(input@, pos as int) == ParseOutcome::<Seq<u8>>::Failed(e@),
        },
{
    if pos >= input.len() {
        return Err(SplashParseError::Nom(pos, ErrorKind::Tag));
    }
    if !ident_start_at(input, pos) {
        return Err(SplashParseError::Nom(pos, ErrorKind::Tag));
    }
    let mut i: usize = pos + 1;
    while ident_char_at(input, i)
        invariant
            pos + 1 <= i <= input@.len(),
            pos + 1 + ident_len(input@, pos + 1) == i + ident_len(input@, i as int),
        decreases input@.len() - i,
    {
        i = i + 1;
    }
    proof {
        assert(ident_len(input@, i as int) == 0);
    }
    let mut name: Vec<u8> = Vec::new();
    let mut j: usize = pos;
    while j < i
        invariant
            pos <= j <= i <= input@.len(),
            name@ =~= input@.subrange(pos as int, j as int),
        decreases i - j,
    {
        name.push(input[j]);
        proof {
            assert(input@.subrange(pos as int, j + 1) =~= input@.subrange(pos as int, j as int).push(
                input@[j as int],
            ));
        }
        j = j + 1;
    }
    Ok((name, i))
}

} // verus!
