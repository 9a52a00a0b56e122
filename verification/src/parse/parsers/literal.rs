use vstd::prelude::*;

use crate::parse::error::{
    deeper, rem, spec_deeper, ErrorKind, ParseErrorModel, ParseOutcome, SplashParseError,
};
use crate::parse::parsers::keyword::bytes_at;
use crate::utils::copy_bytes;

verus! {

/// A literal value as written in source text: a decimal number, a boolean,
/// or a quoted string (kept as its raw bytes, without the quotes).
pub enum Literal {
    Number(i64),
    Boolean(bool),
    String(Vec<u8>),
}

/// Mathematical model of a literal.
pub enum LiteralModel {
    Number(int),
    Boolean(bool),
    String(Seq<u8>),
}

impl View for Literal {
    type V = LiteralModel;

    open spec fn view(&self) -> LiteralModel {
        match self {
            Literal::Number(n) => LiteralModel::Number(*n as int),
            Literal::Boolean(b) => LiteralModel::Boolean(*b),
            Literal::String(s) => LiteralModel::String(s@),
        }
    }
}

impl Literal {
    /// An identical copy of this literal.
    pub fn duplicate(&self) -> (r: Self)
        ensures
            r@ == self@,
    {
        match self {
            Literal::Number(n) => Literal::Number(*n),
            Literal::Boolean(b) => Literal::Boolean(*b),
            Literal::String(s) => Literal::String(copy_bytes(s)),
        }
    }
}

/// The length of the digit run at `pos`.
pub open spec fn digit_len(input: Seq<u8>, pos: int) -> nat
    decreases rem(input, pos),
{
    if 0 <= pos < input.len() && 48 <= input[pos] <= 57 {
        (1 + digit_len(input, pos + 1)) as nat
    } else {
        0
    }
}

/// The number a run of decimal digit bytes denotes.
pub open spec fn digits_val(s: Seq<u8>) -> int
    decreases s.len(),
{
    if s.len() == 0 {
        0
    } else {
        digits_val(s.drop_last()) * 10 + (s.last() - 48)
    }
}

/// The value of a digit run is never negative.
pub proof fn lemma_digits_val_nonneg(s: Seq<u8>)
    requires
        forall|j: int| 0 <= j < s.len() ==> 48 <= #[trigger] s[j] <= 57,
    ensures
        digits_val(s) >= 0,
    decreases s.len(),
{
    if s.len() > 0 {
        lemma_digits_val_nonneg(s.drop_last());
    }
}

/// A digit run denotes at least as much as any of its prefixes.
pub proof fn lemma_digits_val_prefix(s: Seq<u8>, i: int)
    requires
        0 <= i <= s.len(),
        forall|j: int| 0 <= j < s.len() ==> 48 <= #[trigger] s[j] <= 57,
    ensures
        digits_val(s) >= digits_val(s.take(i)),
    decreases s.len(),
{
    lemma_digits_val_nonneg(s);
    if i < s.len() {
        assert(s.drop_last().take(i) =~= s.take(i));
        assert(forall|j: int| 0 <= j < s.drop_last().len() ==> 48 <= #[trigger] s.drop_last()[j]
            <= 57);
        lemma_digits_val_prefix(s.drop_last(), i);
        lemma_digits_val_nonneg(s.drop_last());
    } else {
        assert(s.take(i) =~= s);
    }
}

/// Grammar rule for a number literal: a run of decimal digits, read as a
/// 64-bit integer; a run whose value cannot fit fails where it starts.
pub open spec fn spec_number(input: Seq<u8>, pos: int) -> ParseOutcome<LiteralModel> {
    if 0 <= pos < input.len() && 48 <= input[pos] <= 57 {
        let end = pos + digit_len(input, pos);
        let v = digits_val(input.subrange(pos, end));
        if v > i64::MAX {
            ParseOutcome::Failed(ParseErrorModel::Nom(pos, ErrorKind::Digit))
        } else {
            ParseOutcome::Parsed(LiteralModel::Number(v), end)
        }
    } else {
        ParseOutcome::Failed(ParseErrorModel::Nom(pos, ErrorKind::Digit))
    }
}

/// Grammar rule for a boolean literal: the bytes `true` or `false`.
pub open spec fn spec_boolean(input: Seq<u8>, pos: int) -> ParseOutcome<LiteralModel> {
    if bytes_at(input, pos, keyword_true()) {
        ParseOutcome::Parsed(LiteralModel::Boolean(true), pos + 4)
    } else if bytes_at(input, pos, keyword_false()) {
        ParseOutcome::Parsed(LiteralModel::Boolean(false), pos + 5)
    } else {
        ParseOutcome::Failed(ParseErrorModel::Nom(pos, ErrorKind::Tag))
    }
}

/// The bytes of the literal `true`.
pub open spec fn keyword_true() -> Seq<u8> {
    seq!['t' as u8, 'r' as u8, 'u' as u8, 'e' as u8]
}

/// The bytes of the literal `false`.
pub open spec fn keyword_false() -> Seq<u8> {
    seq!['f' as u8, 'a' as u8, 'l' as u8, 's' as u8, 'e' as u8]
}

/// The distance from `pos` to the closing double quote, if any; a backslash
/// leaves the following byte uninterpreted, so an escaped quote does not
/// close the string.
pub open spec fn string_close(input: Seq<u8>, pos: int) -> Option<nat>
    decreases rem(input, pos),
{
    if !(0 <= pos < input.len()) {
        None
    } else if input[pos] == '"' as u8 {
        Some(0)
    } else if input[pos] == '\\' as u8 {
        if pos + 1 < input.len() {
            match string_close(input, pos + 2) {
                Some(d) => Some((2 + d) as nat),
                None => None,
            }
        } else {
            None
        }
    } else {
        match string_close(input, pos + 1) {
            Some(d) => Some((1 + d) as nat),
            None => None,
        }
    }
}

/// Grammar rule for a string literal: any bytes between double quotes, kept
/// raw; a backslash keeps the next byte from closing the string. An
/// unterminated string fails just after its opening quote.
pub open spec fn spec_string_literal(input: Seq<u8>, pos: int) -> ParseOutcome<LiteralModel> {
    if 0 <= pos < input.len() && input[pos] == '"' as u8 {
        match string_close(input, pos + 1) {
            Some(d) => ParseOutcome::Parsed(
                LiteralModel::String(input.subrange(pos + 1, pos + 1 + d)),
                pos + 1 + d + 1,
            ),
            None => ParseOutcome::Failed(ParseErrorModel::Nom(pos + 1, ErrorKind::TakeUntil)),
        }
    } else {
        ParseOutcome::Failed(ParseErrorModel::Nom(pos, ErrorKind::Char))
    }
}

/// Grammar rule for any literal: a number, a boolean, or a string, tried in
/// that order; when all fail, the failure that reached deepest wins.
pub open spec fn spec_literal(input: Seq<u8>, pos: int) -> ParseOutcome<LiteralModel> {
    match spec_number(input, pos) {
        ParseOutcome::Parsed(l, p) => ParseOutcome::Parsed(l, p),
        ParseOutcome::Failed(e1) => match spec_boolean(input, pos) {
            ParseOutcome::Parsed(l, p) => ParseOutcome::Parsed(l, p),
            ParseOutcome::Failed(e2) => match spec_string_literal(input, pos) {
                ParseOutcome::Parsed(l, p) => ParseOutcome::Parsed(l, p),
                ParseOutcome::Failed(e3) => ParseOutcome::Failed(
                    spec_deeper(spec_deeper(e1, e2), e3),
                ),
            },
        },
    }
}

/// Recognizes a number literal at `pos`.
fn parse_number(input: &Vec<u8>, pos: usize) -> (r: Result<(Literal, usize), SplashParseError>)
    requires
        pos <= input@.len(),
    ensures
        match r {
            Ok((l, p)) => spec_number(input@, pos as int) == ParseOutcome::Parsed(l@, p as int)
                && pos < p <= input@.len(),
            Err(e) => spec_number(input@, pos as int) == ParseOutcome::<LiteralModel>::Failed(e@),
        },
{
    if !(pos < input.len() && 48 <= input[pos] && input[pos] <= 57) {
        return Err(SplashParseError::Nom(pos, ErrorKind::Digit));
    }
    let mut i: usize = pos;
    while i < input.len() && 48 <= input[i] && input[i] <= 57
        invariant
            pos <= i <= input@.len(),
            pos + digit_len(input@, pos as int) == i + digit_len(input@, i as int),
            forall|j: int| pos <= j < i ==> 48 <= #[trigger] input@[j] <= 57,
        decreases input@.len() - i,
    {
        i = i + 1;
    }
    proof {
        assert(digit_len(input@, i as int) == 0);
    }
    let ghost digits = input@.subrange(pos as int, i as int);
    proof {
        assert(forall|j: int| 0 <= j < digits.len() ==> 48 <= #[trigger] digits[j] <= 57);
    }
    let mut acc: i64 = 0;
    let mut j: usize = pos;
    while j < i
        invariant
            pos <= j <= i <= input@.len(),
            digits == input@.subrange(pos as int, i as int),
            forall|k: int| 0 <= k < digits.len() ==> 48 <= #[trigger] digits[k] <= 57,
            acc == digits_val(digits.take(j - pos)),
            acc >= 0,
        decreases i - j,
    {
        let d: i64 = (input[j] - 48) as i64;
        let overflowed: bool = match acc.checked_mul(10) {
            Some(t) => {
                match t.checked_add(d) {
                    Some(a) => {
                        proof {
                            assert(digits.take(j - pos + 1).drop_last() =~= digits.take(j - pos));
                            assert(digits.take(j - pos + 1).last() == digits[j - pos]);
                            assert(digits[j - pos] == input@[j as int]);
                        }
                        acc = a;
                        false
                    }
                    None => true,
                }
            }
            None => true,
        };
        if overflowed {
            proof {
                assert(digits.take(j - pos + 1).drop_last() =~= digits.take(j - pos));
                assert(digits.take(j - pos + 1).last() == digits[j - pos]);
                assert(digits_val(digits.take(j - pos + 1)) > i64::MAX);
                lemma_digits_val_prefix(digits, j - pos + 1);
                assert(digits.take(digits.len() as int) =~= digits);
                assert(digits_val(digits) > i64::MAX);
            }
            return Err(SplashParseError::Nom(pos, ErrorKind::Digit));
        }
        j = j + 1;
    }
    proof {
        assert(digits.take(digits.len() as int) =~= digits);
        lemma_digits_val_nonneg(digits);
    }
    Ok((Literal::Number(acc), i))
}

/// Recognizes a boolean literal at `pos`.
fn parse_boolean(input: &Vec<u8>, pos: usize) -> (r: Result<(Literal, usize), SplashParseError>)
    requires
        pos <= input@.len(),
    ensures
        match r {
            Ok((l, p)) => spec_boolean(input@, pos as int) == ParseOutcome::Parsed(l@, p as int)
                && pos < p <= input@.len(),
            Err(e) => spec_boolean(input@, pos as int) == ParseOutcome::<LiteralModel>::Failed(e@),
        },
{
    if 4 <= input.len() - pos && input[pos] == 't' as u8 && input[pos + 1] == 'r' as u8 && input[pos
        + 2] == 'u' as u8 && input[pos + 3] == 'e' as u8 {
        proof {
            assert(input@.subrange(pos as int, pos + 4) =~= keyword_true());
        }
        return Ok((Literal::Boolean(true), pos + 4));
    }
    if 5 <= input.len() - pos && input[pos] == 'f' as u8 && input[pos + 1] == 'a' as u8 && input[pos
        + 2] == 'l' as u8 && input[pos + 3] == 's' as u8 && input[pos + 4] == 'e' as u8 {
        proof {
            assert(input@.subrange(pos as int, pos + 5) =~= keyword_false());
            assert(!bytes_at(input@, pos as int, keyword_true()));
        }
        return Ok((Literal::Boolean(false), pos + 5));
    }
    proof {
        assert(!bytes_at(input@, pos as int, keyword_true())) by {
            if bytes_at(input@, pos as int, keyword_true()) {
                assert(input@.subrange(pos as int, pos + 4)[0] == input@[pos as int]);
                assert(input@.subrange(pos as int, pos + 4)[1] == input@[pos + 1]);
                assert(input@.subrange(pos as int, pos + 4)[2] == input@[pos + 2]);
                assert(input@.subrange(pos as int, pos + 4)[3] == input@[pos + 3]);
            }
        }
        assert(!bytes_at(input@, pos as int, keyword_false())) by {
            if bytes_at(input@, pos as int, keyword_false()) {
                assert(input@.subrange(pos as int, pos + 5)[0] == input@[pos as int]);
                assert(input@.subrange(pos as int, pos + 5)[1] == input@[pos + 1]);
                assert(input@.subrange(pos as int, pos + 5)[2] == input@[pos + 2]);
                assert(input@.subrange(pos as int, pos + 5)[3] == input@[pos + 3]);
                assert(input@.subrange(pos as int, pos + 5)[4] == input@[pos + 4]);
            }
        }
    }
    Err(SplashParseError::Nom(pos, ErrorKind::Tag))
}

/// Finds the closing double quote from `start` on, honoring backslashes.
fn find_string_close(input: &Vec<u8>, start: usize) -> (r: Option<usize>)
    requires
        start <= input@.len(),
    ensures
        match r {
            Some(i) => start <= i < input@.len() && string_close(input@, start as int) == Some(
                (i - start) as nat,
            ),
            None => string_close(input@, start as int) is None,
        },
{
    let mut i: usize = start;
    loop
        invariant
            start <= i <= input@.len(),
            match string_close(input@, i as int) {
                Some(d) => string_close(input@, start as int) == Some((i - start + d) as nat),
                None => string_close(input@, start as int) is None,
            },
        decreases input@.len() - i,
    {
        if i >= input.len() {
            proof {
                assert(string_close(input@, i as int) is None);
            }
            return None;
        }
        if input[i] == '"' as u8 {
            proof {
                assert(string_close(input@, i as int) == Some(0nat));
            }
            return Some(i);
        }
        if input[i] == '\\' as u8 {
            if i + 1 < input.len() {
                i = i + 2;
            } else {
                proof {
                    assert(string_close(input@, i as int) is None);
                }
                return None;
            }
        } else {
            i = i + 1;
        }
    }
}

/// Recognizes a string literal at `pos`, keeping its bytes raw.
fn parse_string(input: &Vec<u8>, pos: usize) -> (r: Result<(Literal, usize), SplashParseError>)
    requires
        pos <= input@.len(),
    ensures
        match r {
            Ok((l, p)) => spec_string_literal(input@, pos as int) == ParseOutcome::Parsed(
                l@,
                p as int,
            ) && pos < p <= input@.len(),
            Err(e) => spec_string_literal(input@, pos as int) == ParseOutcome::<
                LiteralModel,
            >::Failed(e@),
        },
{
    if !(pos < input.len() && input[pos] == '"' as u8) {
        return Err(SplashParseError::Nom(pos, ErrorKind::Char));
    }
    let start = pos + 1;
    let i = match find_string_close(input, start) {
        Some(i) => i,
        None => {
            return Err(SplashParseError::Nom(pos + 1, ErrorKind::TakeUntil));
        }
    };
    let mut content: Vec<u8> = Vec::new();
    let mut j: usize = start;
    while j < i
        invariant
            start <= j <= i <= input@.len(),
            content@ =~= input@.subrange(start as int, j as int),
        decreases i - j,
    {
        content.push(input[j]);
        proof {
            assert(input@.subrange(start as int, j + 1) =~= input@.subrange(
                start as int,
                j as int,
            ).push(input@[j as int]));
        }
        j = j + 1;
    }
    Ok((Literal::String(content), i + 1))
}

/// Recognizes any literal at `pos`: a number, a boolean, or a string, tried
/// in that order.
pub fn literal(input: &Vec<u8>, pos: usize) -> (r: Result<(Literal, usize), SplashParseError>)
    requires
        pos <= input@.len(),
    ensures
        match r {
            Ok((l, p)) => spec_literal(input@, pos as int) == ParseOutcome::Parsed(l@, p as int)
                && pos < p <= input@.len(),
            Err(e) => spec_literal(input@, pos as int) == ParseOutcome::<LiteralModel>::Failed(e@),
        },
{
    let e1 = match parse_number(input, pos) {
        Ok(r) => {
            return Ok(r);
        }
        Err(e) => e,
    };
    let e2 = match parse_boolean(input, pos) {
        Ok(r) => {
            return Ok(r);
        }
        Err(e) => e,
    };
    let e3 = match parse_string(input, pos) {
        Ok(r) => {
            return Ok(r);
        }
        Err(e) => e,
    };
    Err(deeper(deeper(e1, e2), e3))
}

} // verus!
