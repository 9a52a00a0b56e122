use vstd::prelude::*;

use crate::parse::error::{ParseErrorModel, ParseOutcome, SplashParseError};

verus! {

/// A reserved word of the language.
#[derive(Clone, Copy, Debug, PartialEq, Eq, Structural)]
pub enum Keyword {
    Let,
    If,
    Else,
    While,
    For,
    In,
    Return,
    Fn,
}

/// The characters of a keyword, as they appear in source text.
pub open spec fn keyword_chars(k: Keyword) -> Seq<char> {
    match k {
        Keyword::Let => seq!['l', 'e', 't'],
        Keyword::If => seq!['i', 'f'],
        Keyword::Else => seq!['e', 'l', 's', 'e'],
        Keyword::While => seq!['w', 'h', 'i', 'l', 'e'],
        Keyword::For => seq!['f', 'o', 'r'],
        Keyword::In => seq!['i', 'n'],
        Keyword::Return => seq!['r', 'e', 't', 'u', 'r', 'n'],
        Keyword::Fn => seq!['f', 'n'],
    }
}

/// The bytes of a keyword, as matched against source input.
pub open spec fn keyword_bytes(k: Keyword) -> Seq<u8> {
    keyword_chars(k).map_values(|c: char| c as u8)
}

impl Keyword {
    /// The source spelling of this keyword.
    pub fn as_str(&self) -> (r: &'static str)
        ensures
            r@ == keyword_chars(*self),
    {
        match self {
            Keyword::Let => {
                proof {
                    reveal_strlit("let");
                }
                "let"
            }
            Keyword::If => {
                proof {
                    reveal_strlit("if");
                }
                "if"
            }
            Keyword::Else => {
                proof {
                    reveal_strlit("else");
                }
                "else"
            }
            Keyword::While => {
                proof {
                    reveal_strlit("while");
                }
                "while"
            }
            Keyword::For => {
                proof {
                    reveal_strlit("for");
                }
                "for"
            }
            Keyword::In => {
                proof {
                    reveal_strlit("in");
                }
                "in"
            }
            Keyword::Return => {
                proof {
                    reveal_strlit("return");
                }
                "return"
            }
            Keyword::Fn => {
                proof {
                    reveal_strlit("fn");
                }
                "fn"
            }
        }
    }

    /// The bytes of this keyword's source spelling.
    pub fn to_bytes(&self) -> (r: Vec<u8>)
        ensures
            r@ == keyword_bytes(*self),
    {
        crate::utils::str_bytes(self.as_str())
    }
}

/// Whether `w` occurs in `input` starting at byte offset `pos`.
pub open spec fn bytes_at(input: Seq<u8>, pos: int, w: Seq<u8>) -> bool {
    &&& 0 <= pos
    &&& pos + w.len() <= input.len()
    &&& input.subrange(pos, pos + w.len()) == w
}

/// Grammar rule for one keyword: succeeds exactly when the keyword's bytes
/// occur at `pos`; mismatches are reported as a keyword failure.
pub open spec fn spec_keyword(k: Keyword, input: Seq<u8>, pos: int) -> ParseOutcome<()> {
    if bytes_at(input, pos, keyword_bytes(k)) {
        ParseOutcome::Parsed((), pos + keyword_bytes(k).len())
    } else {
        ParseOutcome::Failed(ParseErrorModel::InvalidKeyword)
    }
}

/// Recognizes the keyword `k` at `pos`, returning the offset just past it.
pub fn keyword(k: Keyword, input: &Vec<u8>, pos: usize) -> (r: Result<usize, SplashParseError>)
    requires
        pos <= input@.len(),
    ensures
        match r {
            Ok(p) => spec_keyword(k, input@, pos as int) == ParseOutcome::<()>::Parsed((), p as int)
                && pos < p <= input@.len(),
            Err(e) => spec_keyword(k, input@, pos as int) == ParseOutcome::<()>::Failed(e@),
        },
{
    let w = k.to_bytes();
    if w.len() > input.len() - pos {
        proof {
            assert(!bytes_at(input@, pos as int, keyword_bytes(k)));
        }
        return Err(SplashParseError::InvalidKeyword);
    }
    let mut i: usize = 0;
    while i < w.len()
        invariant
            i <= w.len(),
            input@.subrange(pos as int, pos + i) =~= w@.take(i as int),
        decreases w@.len() - i,
    {
        if input[pos + i] != w[i] {
            proof {
                assert(input@.subrange(pos as int, pos + w@.len())[i as int] == input@[pos + i]);
                assert(!bytes_at(input@, pos as int, keyword_bytes(k)));
            }
            return Err(SplashParseError::InvalidKeyword);
        }
        proof {
            assert(input@.subrange(pos as int, pos + i + 1) =~= input@.subrange(
                pos as int,
                pos + i,
            ).push(input@[pos + i]));
            assert(w@.take(i + 1) =~= w@.take(i as int).push(w@[i as int]));
        }
        i = i + 1;
    }
    proof {
        assert(w@.take(w@.len() as int) =~= w@);
        assert(bytes_at(input@, pos as int, keyword_bytes(k)));
        assert(keyword_bytes(k).len() > 0);
    }
    Ok(pos + w.len())
}

} // verus!
