use vstd::prelude::*;

use crate::parse::error::{
    deeper, ge_clamp, rem, spec_deeper, ErrorKind, ParseErrorModel, ParseOutcome, SplashParseError,
};
use crate::parse::combinators::trim::trivia_len;
use crate::parse::parsers::atom::{spec_atom, Atom, AtomModel};
use crate::parse::parsers::identifier::spec_identifier;
use crate::parse::parsers::operation::{operand_to_expr, spec_multi_chain};
use crate::parse::parsers::operator::Operator;
use crate::utils::copy_bytes;

verus! {

/// An expression: an atom, an operator applied to its operands (one for a
/// unary operator, two for a binary one), a function call, a list literal,
/// or an indexing of a named list.
pub enum Expression {
    Atom(Atom),
    Operation(Operator, Vec<Expression>),
    Function(Vec<u8>, Vec<Expression>),
    List(Vec<Expression>),
    Index(Vec<u8>, Box<Expression>),
}

/// Mathematical model of an expression. An `Index` node carries its single
/// index expression as a one-element sequence.
pub enum ExprModel {
    Atom(AtomModel),
    Operation(Operator, Seq<ExprModel>),
    Function(Seq<u8>, Seq<ExprModel>),
    List(Seq<ExprModel>),
    Index(Seq<u8>, Seq<ExprModel>),
}

pub open spec fn expr_model(e: Expression) -> ExprModel
    decreases e,
{
    match e {
        Expression::Atom(a) => ExprModel::Atom(a@),
        Expression::Operation(op, operands) => ExprModel::Operation(op, expr_models(operands@)),
        Expression::Function(name, args) => ExprModel::Function(name@, expr_models(args@)),
        Expression::List(elems) => ExprModel::List(expr_models(elems@)),
        Expression::Index(name, idx) => ExprModel::Index(name@, seq![expr_model(*idx)]),
    }
}

pub open spec fn expr_models(s: Seq<Expression>) -> Seq<ExprModel>
    decreases s,
{
    if s.len() == 0 {
        seq![]
    } else {
        expr_models(s.drop_last()).push(expr_model(s.last()))
    }
}

impl View for Expression {
    type V = ExprModel;

    open spec fn view(&self) -> ExprModel {
        expr_model(*self)
    }
}

pub proof fn lemma_expr_models_len(s: Seq<Expression>)
    ensures
        expr_models(s).len() == s.len(),
    decreases s.len(),
{
    if s.len() > 0 {
        lemma_expr_models_len(s.drop_last());
    }
}

/// The model of a sequence of expressions is the sequence of their models.
pub proof fn lemma_expr_models_index(s: Seq<Expression>, i: int)
    requires
        0 <= i < s.len(),
    ensures
        expr_models(s).len() == s.len(),
        expr_models(s)[i] == expr_model(s[i]),
    decreases s.len(),
{
    lemma_expr_models_len(s);
    if i < s.len() - 1 {
        lemma_expr_models_index(s.drop_last(), i);
    }
}

/// Grammar rule for a trimmed atom expression.
#[verifier::opaque]
pub open spec fn spec_parse_atom(input: Seq<u8>, pos: int) -> ParseOutcome<ExprModel>
    decreases rem(input, pos), 5int,
{
    let t = pos + trivia_len(input, pos);
    match spec_atom(input, t) {
        ParseOutcome::Parsed(a, p) => ParseOutcome::Parsed(
            ExprModel::Atom(a),
            ge_clamp(p, t) + trivia_len(input, ge_clamp(p, t)),
        ),
        ParseOutcome::Failed(e) => ParseOutcome::Failed(e),
    }
}

/// Grammar rule for a function-call expression: an identifier immediately
/// followed by a parenthesized, comma-separated argument list, possibly
/// empty.
#[verifier::opaque]
pub open spec fn spec_parse_function(input: Seq<u8>, pos: int) -> ParseOutcome<ExprModel>
    decreases rem(input, pos), 10int,
{
    match spec_identifier(input, pos) {
        ParseOutcome::Failed(e) => ParseOutcome::Failed(e),
        ParseOutcome::Parsed(name, p) => if 0 <= p < input.len() && input[p] == '(' as u8 {
            let (args, p2) = spec_args(input, p + 1);
            let q = ge_clamp(p2, p + 1);
            if 0 <= q < input.len() && input[q] == ')' as u8 {
                ParseOutcome::Parsed(ExprModel::Function(name, args), q + 1)
            } else {
                ParseOutcome::Failed(ParseErrorModel::Nom(q, ErrorKind::Char))
            }
        } else {
            ParseOutcome::Failed(ParseErrorModel::Nom(p, ErrorKind::Char))
        },
    }
}

/// Grammar rule for a list expression: comma-separated expressions between
/// square brackets, possibly empty.
#[verifier::opaque]
pub open spec fn spec_parse_list(input: Seq<u8>, pos: int) -> ParseOutcome<ExprModel>
    decreases rem(input, pos), 11int,
{
    if 0 <= pos < input.len() && input[pos] == '[' as u8 {
        let (elems, p2) = spec_args(input, pos + 1);
        let q = ge_clamp(p2, pos + 1);
        if 0 <= q < input.len() && input[q] == ']' as u8 {
            ParseOutcome::Parsed(ExprModel::List(elems), q + 1)
        } else {
            ParseOutcome::Failed(ParseErrorModel::Nom(q, ErrorKind::Char))
        }
    } else {
        ParseOutcome::Failed(ParseErrorModel::Nom(pos, ErrorKind::Char))
    }
}

/// Grammar rule for an index expression: an identifier immediately followed
/// by one trimmed expression between square brackets.
#[verifier::opaque]
pub open spec fn spec_parse_index(input: Seq<u8>, pos: int) -> ParseOutcome<ExprModel>
    decreases rem(input, pos), 12int,
{
    match spec_identifier(input, pos) {
        ParseOutcome::Failed(e) => ParseOutcome::Failed(e),
        ParseOutcome::Parsed(name, p) => if 0 <= p < input.len() && input[p] == '[' as u8 {
            match spec_trim_expression(input, p + 1) {
                ParseOutcome::Failed(e) => ParseOutcome::Failed(e),
                ParseOutcome::Parsed(e, p2) => {
                    let q = ge_clamp(p2, p + 1);
                    if 0 <= q < input.len() && input[q] == ']' as u8 {
                        ParseOutcome::Parsed(ExprModel::Index(name, seq![e]), q + 1)
                    } else {
                        ParseOutcome::Failed(ParseErrorModel::Nom(q, ErrorKind::Char))
                    }
                },
            }
        } else {
            ParseOutcome::Failed(ParseErrorModel::Nom(p, ErrorKind::Char))
        },
    }
}

/// Grammar rule for any expression that is not an operator chain: an index,
/// a list, a function call, or an atom, tried in that order; when all fail,
/// the failure that reached deepest wins.
#[verifier::opaque]
pub open spec fn spec_expression_no_operation(input: Seq<u8>, pos: int) -> ParseOutcome<ExprModel>
    decreases rem(input, pos), 15int,
{
    match spec_parse_index(input, pos) {
        ParseOutcome::Parsed(e, p) => ParseOutcome::Parsed(e, p),
        ParseOutcome::Failed(e1) => match spec_parse_list(input, pos) {
            ParseOutcome::Parsed(e, p) => ParseOutcome::Parsed(e, p),
            ParseOutcome::Failed(e2) => match spec_parse_function(input, pos) {
                ParseOutcome::Parsed(e, p) => ParseOutcome::Parsed(e, p),
                ParseOutcome::Failed(e3) => match spec_parse_atom(input, pos) {
                    ParseOutcome::Parsed(e, p) => ParseOutcome::Parsed(e, p),
                    ParseOutcome::Failed(e4) => ParseOutcome::Failed(
                        spec_deeper(spec_deeper(spec_deeper(e1, e2), e3), e4),
                    ),
                },
            },
        },
    }
}

/// Grammar rule for any expression: an operator chain resolved into its
/// precedence-correct tree; a chain of a single operand is just that
/// operand's expression, so this covers every non-operation expression too.
#[verifier::opaque]
pub open spec fn spec_expression(input: Seq<u8>, pos: int) -> ParseOutcome<ExprModel>
    decreases rem(input, pos), 50int,
{
    match spec_multi_chain(input, pos) {
        ParseOutcome::Parsed(o, p) => ParseOutcome::Parsed(operand_to_expr(o), p),
        ParseOutcome::Failed(e) => ParseOutcome::Failed(e),
    }
}

/// Grammar rule for an expression with trivia skipped on both sides.
#[verifier::opaque]
pub open spec fn spec_trim_expression(input: Seq<u8>, pos: int) -> ParseOutcome<ExprModel>
    decreases rem(input, pos), 55int,
{
    let t = pos + trivia_len(input, pos);
    match spec_expression(input, t) {
        ParseOutcome::Parsed(e, p) => ParseOutcome::Parsed(
            e,
            ge_clamp(p, t) + trivia_len(input, ge_clamp(p, t)),
        ),
        ParseOutcome::Failed(e) => ParseOutcome::Failed(e),
    }
}

/// Further elements of a comma-separated expression list, collected while a
/// comma and a further element parse and consume input; the list stops
/// before a trailing comma that no element follows.
#[verifier::opaque]
pub open spec fn spec_args_more(input: Seq<u8>, pos: int) -> (Seq<ExprModel>, int)
    decreases rem(input, pos), 58int,
{
    if 0 <= pos < input.len() && input[pos] == ',' as u8 {
        match spec_trim_expression(input, pos + 1) {
            ParseOutcome::Parsed(e, p) => if 0 <= pos < p <= input.len() {
                let (rest, p2) = spec_args_more(input, p);
                (seq![e] + rest, p2)
            } else {
                (seq![], pos)
            },
            ParseOutcome::Failed(_) => (seq![], pos),
        }
    } else {
        (seq![], pos)
    }
}

/// A comma-separated list of trimmed expressions, possibly empty.
#[verifier::opaque]
pub open spec fn spec_args(input: Seq<u8>, pos: int) -> (Seq<ExprModel>, int)
    decreases rem(input, pos), 60int,
{
    match spec_trim_expression(input, pos) {
        ParseOutcome::Failed(_) => (seq![], pos),
        ParseOutcome::Parsed(e, p) => {
            let (rest, p2) = spec_args_more(input, ge_clamp(p, pos));
            (seq![e] + rest, p2)
        },
    }
}

/// An identical deep copy of a vector of expressions.
pub fn duplicate_expressions(s: &Vec<Expression>) -> (r: Vec<Expression>)
    ensures
        expr_models(r@) == expr_models(s@),
        r@.len() == s@.len(),
    decreases s@,
{
    let mut t: Vec<Expression> = Vec::new();
    let mut i: usize = 0;
    while i < s.len()
        invariant
            i <= s@.len(),
            t@.len() == i,
            expr_models(t@) =~= expr_models(s@.take(i as int)),
        decreases s@.len() - i,
    {
        let ghost t0 = t@;
        let c = s[i].duplicate();
        t.push(c);
        proof {
            assert(t@.drop_last() =~= t0);
            assert(s@.take(i + 1).drop_last() =~= s@.take(i as int));
            assert(s@.take(i + 1).last() == s@[i as int]);
        }
        i = i + 1;
    }
    proof {
        assert(s@.take(s@.len() as int) =~= s@);
    }
    t
}

impl Expression {
    /// An identical deep copy of this expression.
    pub fn duplicate(&self) -> (r: Expression)
        ensures
            r@ == self@,
        decreases *self,
    {
        match self {
            Expression::Atom(a) => Expression::Atom(a.duplicate()),
            Expression::Operation(op, operands) => Expression::Operation(
                *op,
                duplicate_expressions(operands),
            ),
            Expression::Function(name, args) => Expression::Function(
                copy_bytes(name),
                duplicate_expressions(args),
            ),
            Expression::List(elems) => Expression::List(duplicate_expressions(elems)),
            Expression::Index(name, idx) => Expression::Index(
                copy_bytes(name),
                Box::new((**idx).duplicate()),
            ),
        }
    }
}

/// When no comma or further element parses at `i`, the list ends there.
proof fn lemma_args_more_stop(input: Seq<u8>, i: int)
    requires
        !(0 <= i < input.len() && input[i] == ',' as u8) || spec_trim_expression(input, i + 1)
            is Failed || (spec_trim_expression(input, i + 1) matches ParseOutcome::Parsed(_, p)
            && !(0 <= i < p <= input.len())),
    ensures
        spec_args_more(input, i) == (Seq::<ExprModel>::empty(), i),
{
    reveal_with_fuel(spec_args_more, 1);
    reveal_with_fuel(spec_trim_expression, 1);
    reveal_with_fuel(spec_expression, 1);
}

/// One further comma and element extend the list by one.
proof fn lemma_args_more_step(input: Seq<u8>, i: int, em: ExprModel, p: int)
    requires
        0 <= i < input.len(),
        input[i] == ',' as u8,
        spec_trim_expression(input, i + 1) == ParseOutcome::Parsed(em, p),
        0 <= i < p <= input.len(),
    ensures
        spec_args_more(input, i) == ({
            let (rest, p2) = spec_args_more(input, p);
            (seq![em] + rest, p2)
        }),
{
    reveal_with_fuel(spec_args_more, 1);
    reveal_with_fuel(spec_trim_expression, 1);
    reveal_with_fuel(spec_expression, 1);
}

/// Recognizes a trimmed atom expression at `pos`.
fn parse_atom(input: &Vec<u8>, pos: usize) -> (r: Result<(Expression, usize), SplashParseError>)
    requires
        pos <= input@.len(),
    ensures
        match r {
            Ok((e, p)) => spec_parse_atom(input@, pos as int) == ParseOutcome::Parsed(e@, p as int)
                && pos < p <= input@.len(),
            Err(e) => spec_parse_atom(input@, pos as int) == ParseOutcome::<ExprModel>::Failed(e@),
        },
    decreases input@.len() - pos, 5int,
{
    proof {
        reveal_with_fuel(spec_parse_atom, 1);
    }
    let t = crate::parse::combinators::trim::trim(input, pos);
    match crate::parse::parsers::atom::atom(input, t) {
        Ok((a, p)) => {
            proof {
                assert(ge_clamp(p as int, t as int) == p as int);
            }
            let p2 = crate::parse::combinators::trim::trim(input, p);
            Ok((Expression::Atom(a), p2))
        }
        Err(e) => Err(e),
    }
}

/// Recognizes a function-call expression at `pos`.
fn parse_function(input: &Vec<u8>, pos: usize) -> (r: Result<(Expression, usize), SplashParseError>)
    requires
        pos <= input@.len(),
    ensures
        match r {
            Ok((e, p)) => spec_parse_function(input@, pos as int) == ParseOutcome::Parsed(
                e@,
                p as int,
            ) && pos < p <= input@.len(),
            Err(e) => spec_parse_function(input@, pos as int) == ParseOutcome::<ExprModel>::Failed(
                e@,
            ),
        },
    decreases input@.len() - pos, 10int,
{
    proof {
        reveal_with_fuel(spec_parse_function, 1);
        reveal_with_fuel(spec_args, 1);
        reveal_with_fuel(spec_trim_expression, 1);
        reveal_with_fuel(spec_expression, 1);
        reveal_with_fuel(spec_args_more, 1);
    }
    let (name, p) = match crate::parse::parsers::identifier::identifier(input, pos) {
        Ok(v) => v,
        Err(e) => {
            return Err(e);
        }
    };
    if !(p < input.len() && input[p] == '(' as u8) {
        return Err(SplashParseError::Nom(p, ErrorKind::Char));
    }
    let (args, p2) = parse_args(input, p + 1);
    proof {
        assert(ge_clamp(p2 as int, p + 1) == p2 as int);
    }
    if p2 < input.len() && input[p2] == ')' as u8 {
        Ok((Expression::Function(name, args), p2 + 1))
    } else {
        Err(SplashParseError::Nom(p2, ErrorKind::Char))
    }
}

/// Recognizes a list expression at `pos`.
fn parse_list(input: &Vec<u8>, pos: usize) -> (r: Result<(Expression, usize), SplashParseError>)
    requires
        pos <= input@.len(),
    ensures
        match r {
            Ok((e, p)) => spec_parse_list(input@, pos as int) == ParseOutcome::Parsed(e@, p as int)
                && pos < p <= input@.len(),
            Err(e) => spec_parse_list(input@, pos as int) == ParseOutcome::<ExprModel>::Failed(e@),
        },
    decreases input@.len() - pos, 11int,
{
    proof {
        reveal_with_fuel(spec_parse_list, 1);
        reveal_with_fuel(spec_args, 1);
        reveal_with_fuel(spec_trim_expression, 1);
        reveal_with_fuel(spec_expression, 1);
        reveal_with_fuel(spec_args_more, 1);
    }
    if !(pos < input.len() && input[pos] == '[' as u8) {
        return Err(SplashParseError::Nom(pos, ErrorKind::Char));
    }
    let (elems, p2) = parse_args(input, pos + 1);
    proof {
        assert(ge_clamp(p2 as int, pos + 1) == p2 as int);
    }
    if p2 < input.len() && input[p2] == ']' as u8 {
        Ok((Expression::List(elems), p2 + 1))
    } else {
        Err(SplashParseError::Nom(p2, ErrorKind::Char))
    }
}

/// Recognizes an index expression at `pos`.
fn parse_index(input: &Vec<u8>, pos: usize) -> (r: Result<(Expression, usize), SplashParseError>)
    requires
        pos <= input@.len(),
    ensures
        match r {
            Ok((e, p)) => spec_parse_index(input@, pos as int) == ParseOutcome::Parsed(e@, p as int)
                && pos < p <= input@.len(),
            Err(e) => spec_parse_index(input@, pos as int) == ParseOutcome::<ExprModel>::Failed(e@),
        },
    decreases input@.len() - pos, 12int,
{
    proof {
        reveal_with_fuel(spec_parse_index, 1);
        reveal_with_fuel(spec_trim_expression, 1);
        reveal_with_fuel(spec_expression, 1);
    }
    let (name, p) = match crate::parse::parsers::identifier::identifier(input, pos) {
        Ok(v) => v,
        Err(e) => {
            return Err(e);
        }
    };
    if !(p < input.len() && input[p] == '[' as u8) {
        return Err(SplashParseError::Nom(p, ErrorKind::Char));
    }
    match trim_expression(input, p + 1) {
        Err(e) => Err(e),
        Ok((e, p2)) => {
            proof {
                assert(ge_clamp(p2 as int, p + 1) == p2 as int);
            }
            if p2 < input.len() && input[p2] == ']' as u8 {
                let ghost em = e@;
                let r = Expression::Index(name, Box::new(e));
                proof {
                    assert(r@ matches ExprModel::Index(_, idx) && idx =~= seq![em]);
                }
                Ok((r, p2 + 1))
            } else {
                Err(SplashParseError::Nom(p2, ErrorKind::Char))
            }
        }
    }
}

/// Recognizes any non-operation expression at `pos`: an index, a list, a
/// function call, or an atom, tried in that order.
#[verifier::rlimit(100)]
#[verifier::spinoff_prover]
pub fn expression_no_operation(input: &Vec<u8>, pos: usize) -> (r: Result<
    (Expression, usize),
    SplashParseError,
>)
    requires
        pos <= input@.len(),
    ensures
        match r {
            Ok((e, p)) => spec_expression_no_operation(input@, pos as int) == ParseOutcome::Parsed(
                e@,
                p as int,
            ) && pos < p <= input@.len(),
            Err(e) => spec_expression_no_operation(input@, pos as int) == ParseOutcome::<
                ExprModel,
            >::Failed(e@),
        },
    decreases input@.len() - pos, 15int,
{
    proof {
        reveal_with_fuel(spec_expression_no_operation, 1);
        reveal_with_fuel(spec_parse_index, 1);
        reveal_with_fuel(spec_parse_list, 1);
        reveal_with_fuel(spec_parse_function, 1);
        reveal_with_fuel(spec_parse_atom, 1);
    }
    let e1 = match parse_index(input, pos) {
        Ok(v) => {
            return Ok(v);
        }
        Err(e) => e,
    };
    let e2 = match parse_list(input, pos) {
        Ok(v) => {
            return Ok(v);
        }
        Err(e) => e,
    };
    let e3 = match parse_function(input, pos) {
        Ok(v) => {
            return Ok(v);
        }
        Err(e) => e,
    };
    let e4 = match parse_atom(input, pos) {
        Ok(v) => {
            return Ok(v);
        }
        Err(e) => e,
    };
    Err(deeper(deeper(deeper(e1, e2), e3), e4))
}

/// Recognizes any expression at `pos`: an operator chain resolved into its
/// tree, with a single-operand chain standing for that operand's expression.
pub fn expression(input: &Vec<u8>, pos: usize) -> (r: Result<(Expression, usize), SplashParseError>)
    requires
        pos <= input@.len(),
    ensures
        match r {
            Ok((e, p)) => spec_expression(input@, pos as int) == ParseOutcome::Parsed(e@, p as int)
                && pos < p <= input@.len(),
            Err(e) => spec_expression(input@, pos as int) == ParseOutcome::<ExprModel>::Failed(e@),
        },
    decreases input@.len() - pos, 50int,
{
    proof {
        reveal_with_fuel(spec_expression, 1);
        reveal_with_fuel(crate::parse::parsers::operation::spec_multi_chain, 1);
    }
    match crate::parse::parsers::operation::parse_multi_chain(input, pos) {
        Ok((o, p)) => {
            let e = crate::parse::parsers::operation::operand_expression(&o);
            Ok((e, p))
        }
        Err(e) => Err(e),
    }
}

/// Recognizes an expression with trivia skipped on both sides.
pub fn trim_expression(input: &Vec<u8>, pos: usize) -> (r: Result<
    (Expression, usize),
    SplashParseError,
>)
    requires
        pos <= input@.len(),
    ensures
        match r {
            Ok((e, p)) => spec_trim_expression(input@, pos as int) == ParseOutcome::Parsed(
                e@,
                p as int,
            ) && pos < p <= input@.len(),
            Err(e) => spec_trim_expression(input@, pos as int) == ParseOutcome::<
                ExprModel,
            >::Failed(e@),
        },
    decreases input@.len() - pos, 55int,
{
    proof {
        reveal_with_fuel(spec_trim_expression, 1);
        reveal_with_fuel(spec_expression, 1);
    }
    let t = crate::parse::combinators::trim::trim(input, pos);
    match expression(input, t) {
        Ok((e, p)) => {
            proof {
                assert(ge_clamp(p as int, t as int) == p as int);
            }
            let p2 = crate::parse::combinators::trim::trim(input, p);
            Ok((e, p2))
        }
        Err(e) => Err(e),
    }
}

/// Recognizes a comma-separated list of trimmed expressions, possibly
/// empty.
#[verifier::rlimit(100)]
#[verifier::spinoff_prover]
pub fn parse_args(input: &Vec<u8>, pos: usize) -> (r: (Vec<Expression>, usize))
    requires
        pos <= input@.len(),
    ensures
        spec_args(input@, pos as int) == (expr_models(r.0@), r.1 as int),
        pos <= r.1 <= input@.len(),
    decreases input@.len() - pos, 60int,
{
    proof {
        reveal_with_fuel(spec_args, 1);
        reveal_with_fuel(spec_trim_expression, 1);
        reveal_with_fuel(spec_expression, 1);
        reveal_with_fuel(spec_args_more, 1);
    }
    let mut out: Vec<Expression> = Vec::new();
    let first_end = match trim_expression(input, pos) {
        Err(_) => {
            proof {
                assert(expr_models(out@).len() == 0);
                assert(spec_args(input@, pos as int) == (expr_models(out@), pos as int));
            }
            return (out, pos);
        }
        Ok((e, p)) => {
            let ghost em = e@;
            out.push(e);
            proof {
                assert(out@.drop_last() =~= Seq::<Expression>::empty());
                assert(expr_models(out@.drop_last()).len() == 0);
                assert(expr_models(out@) =~= seq![em]);
                assert(ge_clamp(p as int, pos as int) == p as int);
            }
            p
        }
    };
    let mut i: usize = first_end;
    loop
        invariant
            pos < i <= input@.len(),
            out@.len() >= 1,
            ({
                let (rest, p2) = spec_args_more(input@, i as int);
                spec_args(input@, pos as int) == (expr_models(out@) + rest, p2)
            }),
        decreases input@.len() - i,
    {
        let ghost i0 = i as int;
        let ghost models0 = expr_models(out@);
        if !(i < input.len() && input[i] == ',' as u8) {
            proof {
                lemma_args_more_stop(input@, i0);
                assert(expr_models(out@) + Seq::<ExprModel>::empty() =~= expr_models(out@));
            }
            return (out, i);
        }
        match trim_expression(input, i + 1) {
            Err(_) => {
                proof {
                    lemma_args_more_stop(input@, i0);
                    assert(expr_models(out@) + Seq::<ExprModel>::empty() =~= expr_models(out@));
                }
                return (out, i);
            }
            Ok((e, p)) => {
                let ghost em = e@;
                let ghost o0 = out@;
                out.push(e);
                proof {
                    lemma_args_more_step(input@, i0, em, p as int);
                    let (rest2, p3) = spec_args_more(input@, p as int);
                    assert(out@.drop_last() =~= o0);
                    assert(expr_models(out@) =~= models0.push(em));
                    assert(models0.push(em) + rest2 =~= models0 + (seq![em] + rest2));
                }
                i = p;
            }
        }
    }
}

} // verus!
