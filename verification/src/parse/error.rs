use vstd::prelude::*;

verus! {

/// Coarse category carried by a primitive parse failure.
#[derive(Clone, Copy, Debug, PartialEq, Eq, Structural)]
pub enum ErrorKind {
    Char,
    Tag,
    Digit,
    TakeUntil,
    Many,
    Eof,
}

/// Mathematical model of a parse failure: a primitive failure at a byte
/// offset, a stack of nested failures (most specific first), or a keyword
/// mismatch.
pub enum ParseErrorModel {
    Nom(int, ErrorKind),
    Stack(Seq<ParseErrorModel>),
    InvalidKeyword,
}

/// Outcome of a grammar rule applied to `input` at some byte offset:
/// either a parsed value together with the offset of the first unconsumed
/// byte, or a parse failure. Rules never consume input when they fail.
pub enum ParseOutcome<T> {
    Parsed(T, int),
    Failed(ParseErrorModel),
}

/// How many bytes remain at offset `pos`; zero past the end. The measure
/// every recursive grammar rule decreases.
pub open spec fn rem(input: Seq<u8>, pos: int) -> int {
    if pos < 0 {
        input.len() as int
    } else if pos > input.len() {
        0
    } else {
        input.len() - pos
    }
}

/// A position no earlier than `lo`. Grammar rules only ever move forward,
/// so this is the identity on every position a rule actually produces; it
/// keeps that fact evident where one rule's result feeds the next.
pub open spec fn ge_clamp(p: int, lo: int) -> int {
    if p < lo {
        lo
    } else {
        p
    }
}

/// A parse failure, as handed back by every parser of this crate: a
/// primitive failure at a byte offset with a coarse kind, a stack of such
/// failures built while backtracking (most specific first), or a keyword
/// mismatch.
pub enum SplashParseError {
    Nom(usize, ErrorKind),
    Stack(Vec<SplashParseError>),
    InvalidKeyword,
}

pub open spec fn parse_error_model(e: SplashParseError) -> ParseErrorModel
    decreases e,
{
    match e {
        SplashParseError::Nom(p, k) => ParseErrorModel::Nom(p as int, k),
        SplashParseError::Stack(v) => ParseErrorModel::Stack(parse_error_models(v@)),
        SplashParseError::InvalidKeyword => ParseErrorModel::InvalidKeyword,
    }
}

pub open spec fn parse_error_models(s: Seq<SplashParseError>) -> Seq<ParseErrorModel>
    decreases s,
{
    if s.len() == 0 {
        seq![]
    } else {
        parse_error_models(s.drop_last()).push(parse_error_model(s.last()))
    }
}

/// The model of a sequence of failures is the sequence of their models.
pub proof fn lemma_parse_error_models_index(s: Seq<SplashParseError>, i: int)
    requires
        0 <= i < s.len(),
    ensures
        parse_error_models(s).len() == s.len(),
        parse_error_models(s)[i] == parse_error_model(s[i]),
    decreases s.len(),
{
    if s.len() > 0 {
        lemma_parse_error_models_len(s.drop_last());
        if i < s.len() - 1 {
            lemma_parse_error_models_index(s.drop_last(), i);
        }
    }
}

pub proof fn lemma_parse_error_models_len(s: Seq<SplashParseError>)
    ensures
        parse_error_models(s).len() == s.len(),
    decreases s.len(),
{
    if s.len() > 0 {
        lemma_parse_error_models_len(s.drop_last());
    }
}

impl View for SplashParseError {
    type V = ParseErrorModel;

    open spec fn view(&self) -> ParseErrorModel {
        parse_error_model(*self)
    }
}

/// The byte offset a failure refers to: the offset of a primitive failure,
/// the offset of the most specific entry of a stack, and none (written -1)
/// for a keyword mismatch or an empty stack.
pub open spec fn error_pos(e: ParseErrorModel) -> int
    decreases e,
{
    match e {
        ParseErrorModel::Nom(p, _) => p,
        ParseErrorModel::Stack(s) => if s.len() > 0 {
            error_pos(s[0])
        } else {
            -1
        },
        ParseErrorModel::InvalidKeyword => -1,
    }
}

/// Of two failures from alternative grammar rules, the one that reached
/// deeper into the input; on a tie the later alternative wins.
pub open spec fn spec_deeper(a: ParseErrorModel, b: ParseErrorModel) -> ParseErrorModel {
    if error_pos(b) >= error_pos(a) {
        b
    } else {
        a
    }
}

/// A failure stack extended by one more primitive failure, keeping the most
/// specific entry first.
pub open spec fn spec_append(pos: int, kind: ErrorKind, other: ParseErrorModel) -> ParseErrorModel {
    match other {
        ParseErrorModel::Stack(s) => ParseErrorModel::Stack(
            s.push(ParseErrorModel::Nom(pos, kind)),
        ),
        _ => ParseErrorModel::Stack(seq![other, ParseErrorModel::Nom(pos, kind)]),
    }
}

impl SplashParseError {
    /// A primitive failure at `pos` of the given kind.
    pub fn from_error_kind(pos: usize, kind: ErrorKind) -> (r: Self)
        ensures
            r@ == ParseErrorModel::Nom(pos as int, kind),
    {
        SplashParseError::Nom(pos, kind)
    }

    /// Pushes a new primitive failure at `pos` onto an earlier failure,
    /// forming or extending a stack whose most specific entry comes first.
    pub fn append(pos: usize, kind: ErrorKind, other: Self) -> (r: Self)
        ensures
            r@ == spec_append(pos as int, kind, other@),
    {
        let ghost o = other@;
        match other {
            SplashParseError::Stack(mut stack) => {
                let ghost s0 = stack@;
                proof {
                    assert(o == ParseErrorModel::Stack(parse_error_models(s0)));
                }
                stack.push(SplashParseError::Nom(pos, kind));
                proof {
                    assert(stack@.drop_last() =~= s0);
                    assert(stack@.last() == SplashParseError::Nom(pos, kind));
                    assert(parse_error_model(stack@.last()) == ParseErrorModel::Nom(
                        pos as int,
                        kind,
                    ));
                    assert(parse_error_models(stack@) == parse_error_models(s0).push(
                        ParseErrorModel::Nom(pos as int, kind),
                    ));
                }
                SplashParseError::Stack(stack)
            }
            other => {
                let mut stack: Vec<SplashParseError> = Vec::new();
                stack.push(other);
                let ghost s1 = stack@;
                stack.push(SplashParseError::Nom(pos, kind));
                proof {
                    assert(s1.drop_last() =~= Seq::<SplashParseError>::empty());
                    assert(parse_error_models(s1.drop_last()).len() == 0);
                    assert(s1.last()@ == o);
                    assert(parse_error_models(s1) =~= seq![o]);
                    assert(stack@.drop_last() =~= s1);
                    assert(stack@.last() == SplashParseError::Nom(pos, kind));
                    assert(parse_error_model(stack@.last()) == ParseErrorModel::Nom(
                        pos as int,
                        kind,
                    ));
                    assert(parse_error_models(stack@) =~= seq![
                        o,
                        ParseErrorModel::Nom(pos as int, kind),
                    ]);
                }
                SplashParseError::Stack(stack)
            }
        }
    }

    /// The byte offset this failure refers to, if it has one.
    pub fn position(&self) -> (r: Option<usize>)
        ensures
            match r {
                Some(p) => error_pos(self@) == p as int,
                None => error_pos(self@) == -1,
            },
        decreases *self,
    {
        match self {
            SplashParseError::Nom(p, _) => Some(*p),
            SplashParseError::Stack(v) => {
                if v.len() > 0 {
                    proof {
                        lemma_parse_error_models_index(v@, 0);
                    }
                    v[0].position()
                } else {
                    None
                }
            }
            SplashParseError::InvalidKeyword => None,
        }
    }
}

/// Of two failures from alternative grammar rules, keeps the one that
/// reached deeper into the input; on a tie the later alternative wins.
pub fn deeper(a: SplashParseError, b: SplashParseError) -> (r: SplashParseError)
    ensures
        r@ == spec_deeper(a@, b@),
{
    let pa = a.position();
    let pb = b.position();
    let keep_b = match (pa, pb) {
        (_, None) => pa.is_none(),
        (None, Some(_)) => true,
        (Some(x), Some(y)) => y >= x,
    };
    if keep_b {
        b
    } else {
        a
    }
}

} // verus!
