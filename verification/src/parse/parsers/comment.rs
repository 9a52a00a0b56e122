use vstd::prelude::*;

use crate::parse::error::{rem, ErrorKind, ParseErrorModel, ParseOutcome, SplashParseError};
use crate::parse::parsers::operator::two_bytes_at;

verus! {

/// The distance from `pos` to the next occurrence of `target`, if any.
pub open spec fn until_byte(input: Seq<u8>, pos: int, target: u8) -> Option<nat>
    decreases rem(input, pos),
{
    if !(0 <= pos < input.len()) {
        None
    } else if input[pos] == target {
        Some(0)
    } else {
        match until_byte(input, pos + 1, target) {
            Some(d) => Some((1 + d) as nat),
            None => None,
        }
    }
}

/// The distance from `pos` to the next `*/`, if any.
pub open spec fn until_close(input: Seq<u8>, pos: int) -> Option<nat>
    decreases rem(input, pos),
{
    if !(0 <= pos < input.len()) {
        None
    } else if two_bytes_at(input, pos, '*' as u8, '/' as u8) {
        Some(0)
    } else {
        match until_close(input, pos + 1) {
            Some(d) => Some((1 + d) as nat),
            None => None,
        }
    }
}

/// Grammar rule for a comment: `//` up to and including the next newline,
/// or `/*` up to and including the next `*/`. An unterminated comment fails
/// where its body starts; anything else fails where the comment would
/// start. A comment yields no value.
pub open spec fn spec_comment(input: Seq<u8>, pos: int) -> ParseOutcome<()> {
    if two_bytes_at(input, pos, '/' as u8, '/' as u8) {
        match until_byte(input, pos + 2, '\n' as u8) {
            Some(d) => ParseOutcome::Parsed((), pos + 2 + d + 1),
            None => ParseOutcome::Failed(ParseErrorModel::Nom(pos + 2, ErrorKind::TakeUntil)),
        }
    } else if two_bytes_at(input, pos, '/' as u8, '*' as u8) {
        match until_close(input, pos + 2) {
            Some(d) => ParseOutcome::Parsed((), pos + 2 + d + 2),
            None => ParseOutcome::Failed(ParseErrorModel::Nom(pos + 2, ErrorKind::TakeUntil)),
        }
    } else {
        ParseOutcome::Failed(ParseErrorModel::Nom(pos, ErrorKind::Tag))
    }
}

/// Recognizes one line or block comment at `pos`; its text is thrown away.
pub fn comment(input: &Vec<u8>, pos: usize) -> (r: Result<usize, SplashParseError>)
    requires
        pos <= input@.len(),
    ensures
        match r {
            Ok(p) => spec_comment(input@, pos as int) == ParseOutcome::<()>::Parsed((), p as int)
                && pos < p <= input@.len(),
            Err(e) => spec_comment(input@, pos as int) == ParseOutcome::<()>::Failed(e@),
        },
{
    let two = pos < input.len() && pos + 1 < input.len();
    if two && input[pos] == '/' as u8 && input[pos + 1] == '/' as u8 {
        let mut i: usize = pos + 2;
        while i < input.len() && input[i] != '\n' as u8
            invariant
                pos + 2 <= i <= input@.len(),
                until_byte(input@, pos + 2, '\n' as u8) matches Some(d) ==> pos + 2 + d >= i,
                until_byte(input@, pos + 2, '\n' as u8) == match until_byte(
                    input@,
                    i as int,
                    '\n' as u8,
                ) {
                    Some(d) => Some((i - pos - 2 + d) as nat),
                    None => None::<nat>,
                },
            decreases input@.len() - i,
        {
            i = i + 1;
        }
        if i < input.len() {
            proof {
                assert(until_byte(input@, i as int, '\n' as u8) == Some(0nat));
            }
            Ok(i + 1)
        } else {
            proof {
                assert(until_byte(input@, i as int, '\n' as u8) is None);
            }
            Err(SplashParseError::Nom(pos + 2, ErrorKind::TakeUntil))
        }
    } else if two && input[pos] == '/' as u8 && input[pos + 1] == '*' as u8 {
        let mut i: usize = pos + 2;
        while i < input.len() && i + 1 < input.len() && !(input[i] == '*' as u8 && input[i + 1]
            == '/' as u8)
            invariant
                pos + 2 <= i <= input@.len(),
                until_close(input@, pos + 2) == match until_close(input@, i as int) {
                    Some(d) => Some((i - pos - 2 + d) as nat),
                    None => None::<nat>,
                },
            decreases input@.len() - i,
        {
            i = i + 1;
        }
        if i < input.len() && i + 1 < input.len() {
            proof {
                assert(until_close(input@, i as int) == Some(0nat));
            }
            Ok(i + 2)
        } else {
            proof {
                assert(until_close(input@, i as int) is None) by {
                    if i < input@.len() {
                        assert(!two_bytes_at(input@, i as int, '*' as u8, '/' as u8));
                        assert(until_close(input@, i + 1) is None);
                    }
                }
            }
            Err(SplashParseError::Nom(pos + 2, ErrorKind::TakeUntil))
        }
    } else {
        proof {
            assert(!two_bytes_at(input@, pos as int, '/' as u8, '/' as u8));
            assert(!two_bytes_at(input@, pos as int, '/' as u8, '*' as u8));
        }
        Err(SplashParseError::Nom(pos, ErrorKind::Tag))
    }
}

} // verus!
