use vstd::prelude::*;

use crate::parse::combinators::trim::trivia_len;
use crate::parse::error::{
    deeper, ge_clamp, rem, spec_deeper, ErrorKind, ParseErrorModel, ParseOutcome, SplashParseError,
};
use crate::parse::parsers::block::{block_model, spec_block, Block};
use crate::parse::parsers::expression::{
    expr_model, spec_trim_expression, trim_expression, ExprModel, Expression,
};
use crate::parse::parsers::identifier::{identifier, spec_identifier};
use crate::parse::parsers::keyword::{keyword, spec_keyword, Keyword};
use crate::utils::{bytes_models, copy_bytes, copy_names};

verus! {

/// A statement: a bare expression, a nested anonymous block, a `let`
/// initialization, an assignment to an existing binding, an assignment to
/// one element of a list binding, a conditional with or without `else`, a
/// `while` loop, a `for` loop over a list, a function definition, or a
/// `return` with an optional result.
pub enum Statement {
    Simple(Expression),
    Block(Block),
    Initialization(Vec<u8>, Expression),
    Assignment(Vec<u8>, Expression),
    IndexAssignment(Vec<u8>, Expression, Expression),
    If(Expression, Block),
    IfElse(Expression, Block, Block),
    While(Expression, Block),
    For(Vec<u8>, Expression, Block),
    Definition(Vec<u8>, Vec<Vec<u8>>, Block),
    Return(Option<Expression>),
}

/// Mathematical model of a statement; nested blocks are sequences of
/// statement models.
pub enum StmtModel {
    Simple(ExprModel),
    Block(Seq<StmtModel>),
    Initialization(Seq<u8>, ExprModel),
    Assignment(Seq<u8>, ExprModel),
    IndexAssignment(Seq<u8>, ExprModel, ExprModel),
    If(ExprModel, Seq<StmtModel>),
    IfElse(ExprModel, Seq<StmtModel>, Seq<StmtModel>),
    While(ExprModel, Seq<StmtModel>),
    For(Seq<u8>, ExprModel, Seq<StmtModel>),
    Definition(Seq<u8>, Seq<Seq<u8>>, Seq<StmtModel>),
    Return(Option<ExprModel>),
}

pub open spec fn stmt_model(s: Statement) -> StmtModel
    decreases s,
{
    match s {
        Statement::Simple(e) => StmtModel::Simple(expr_model(e)),
        Statement::Block(b) => StmtModel::Block(block_model(b)),
        Statement::Initialization(name, e) => StmtModel::Initialization(name@, expr_model(e)),
        Statement::Assignment(name, e) => StmtModel::Assignment(name@, expr_model(e)),
        Statement::IndexAssignment(name, idx, e) => StmtModel::IndexAssignment(
            name@,
            expr_model(idx),
            expr_model(e),
        ),
        Statement::If(c, b) => StmtModel::If(expr_model(c), block_model(b)),
        Statement::IfElse(c, b, o) => StmtModel::IfElse(expr_model(c), block_model(b), block_model(o)),
        Statement::While(c, b) => StmtModel::While(expr_model(c), block_model(b)),
        Statement::For(name, e, b) => StmtModel::For(name@, expr_model(e), block_model(b)),
        Statement::Definition(name, params, b) => StmtModel::Definition(
            name@,
            bytes_models(params@),
            block_model(b),
        ),
        Statement::Return(e) => StmtModel::Return(
            match e {
                Some(e) => Some(expr_model(e)),
                None => None,
            },
        ),
    }
}

pub open spec fn stmt_models(s: Seq<Statement>) -> Seq<StmtModel>
    decreases s,
{
    if s.len() == 0 {
        seq![]
    } else {
        stmt_models(s.drop_last()).push(stmt_model(s.last()))
    }
}

impl View for Statement {
    type V = StmtModel;

    open spec fn view(&self) -> StmtModel {
        stmt_model(*self)
    }
}

pub proof fn lemma_stmt_models_len(s: Seq<Statement>)
    ensures
        stmt_models(s).len() == s.len(),
    decreases s.len(),
{
    if s.len() > 0 {
        lemma_stmt_models_len(s.drop_last());
    }
}

/// The model of a sequence of statements is the sequence of their models.
pub proof fn lemma_stmt_models_index(s: Seq<Statement>, i: int)
    requires
        0 <= i < s.len(),
    ensures
        stmt_models(s).len() == s.len(),
        stmt_models(s)[i] == stmt_model(s[i]),
    decreases s.len(),
{
    lemma_stmt_models_len(s);
    if i < s.len() - 1 {
        lemma_stmt_models_index(s.drop_last(), i);
    }
}


/// Grammar rule for a bare expression statement.
#[verifier::opaque]
pub open spec fn spec_parse_simple(input: Seq<u8>, pos: int) -> ParseOutcome<StmtModel>
    decreases rem(input, pos), 75int,
{
    match spec_trim_expression(input, pos) {
        ParseOutcome::Parsed(e, p) => ParseOutcome::Parsed(StmtModel::Simple(e), p),
        ParseOutcome::Failed(e) => ParseOutcome::Failed(e),
    }
}

/// Grammar rule for a bare nested block statement.
#[verifier::opaque]
pub open spec fn spec_parse_block(input: Seq<u8>, pos: int) -> ParseOutcome<StmtModel>
    decreases rem(input, pos), 75int,
{
    match spec_block(input, pos) {
        ParseOutcome::Parsed(b, p) => ParseOutcome::Parsed(StmtModel::Block(b), p),
        ParseOutcome::Failed(e) => ParseOutcome::Failed(e),
    }
}

/// Grammar rule for an initialization: `let`, a trimmed identifier, `=`,
/// and a trimmed expression. It always creates a new binding in the
/// innermost scope, shadowing any outer one.
#[verifier::opaque]
pub open spec fn spec_parse_initialization(input: Seq<u8>, pos: int) -> ParseOutcome<StmtModel>
    decreases rem(input, pos), 75int,
{
    match spec_keyword(Keyword::Let, input, pos) {
        ParseOutcome::Failed(e) => ParseOutcome::Failed(e),
        ParseOutcome::Parsed(_, pk) => {
            let t = ge_clamp(pk, pos) + trivia_len(input, ge_clamp(pk, pos));
            match spec_identifier(input, t) {
                ParseOutcome::Failed(e) => ParseOutcome::Failed(e),
                ParseOutcome::Parsed(name, p2) => {
                    let t2 = ge_clamp(p2, t) + trivia_len(input, ge_clamp(p2, t));
                    if 0 <= t2 < input.len() && input[t2] == '=' as u8 {
                        match spec_trim_expression(input, t2 + 1) {
                            ParseOutcome::Parsed(e, p3) => ParseOutcome::Parsed(
                                StmtModel::Initialization(name, e),
                                p3,
                            ),
                            ParseOutcome::Failed(e) => ParseOutcome::Failed(e),
                        }
                    } else {
                        ParseOutcome::Failed(ParseErrorModel::Nom(t2, ErrorKind::Char))
                    }
                },
            }
        },
    }
}

/// Grammar rule for an assignment: a trimmed identifier, `=`, and a trimmed
/// expression; the identifier must already be bound when it runs.
#[verifier::opaque]
pub open spec fn spec_parse_assignment(input: Seq<u8>, pos: int) -> ParseOutcome<StmtModel>
    decreases rem(input, pos), 75int,
{
    let t = pos + trivia_len(input, pos);
    match spec_identifier(input, t) {
        ParseOutcome::Failed(e) => ParseOutcome::Failed(e),
        ParseOutcome::Parsed(name, p2) => {
            let t2 = ge_clamp(p2, t) + trivia_len(input, ge_clamp(p2, t));
            if 0 <= t2 < input.len() && input[t2] == '=' as u8 {
                match spec_trim_expression(input, t2 + 1) {
                    ParseOutcome::Parsed(e, p3) => ParseOutcome::Parsed(
                        StmtModel::Assignment(name, e),
                        p3,
                    ),
                    ParseOutcome::Failed(e) => ParseOutcome::Failed(e),
                }
            } else {
                ParseOutcome::Failed(ParseErrorModel::Nom(t2, ErrorKind::Char))
            }
        },
    }
}

/// Grammar rule for an assignment to one list element: a trimmed
/// identifier, a trimmed bracketed index expression, `=`, and a trimmed
/// value expression.
#[verifier::opaque]
pub open spec fn spec_parse_index_assignment(input: Seq<u8>, pos: int) -> ParseOutcome<StmtModel>
    decreases rem(input, pos), 75int,
{
    let t = pos + trivia_len(input, pos);
    match spec_identifier(input, t) {
        ParseOutcome::Failed(e) => ParseOutcome::Failed(e),
        ParseOutcome::Parsed(name, p1) => {
            let tb = ge_clamp(p1, t) + trivia_len(input, ge_clamp(p1, t));
            if 0 <= tb < input.len() && input[tb] == '[' as u8 {
                match spec_trim_expression(input, tb + 1) {
                    ParseOutcome::Failed(e) => ParseOutcome::Failed(e),
                    ParseOutcome::Parsed(ie, p2) => {
                        let q = ge_clamp(p2, tb + 1);
                        if 0 <= q < input.len() && input[q] == ']' as u8 {
                            let t3 = (q + 1) + trivia_len(input, q + 1);
                            if 0 <= t3 < input.len() && input[t3] == '=' as u8 {
                                match spec_trim_expression(input, t3 + 1) {
                                    ParseOutcome::Parsed(ve, p3) => ParseOutcome::Parsed(
                                        StmtModel::IndexAssignment(name, ie, ve),
                                        p3,
                                    ),
                                    ParseOutcome::Failed(e) => ParseOutcome::Failed(e),
                                }
                            } else {
                                ParseOutcome::Failed(ParseErrorModel::Nom(t3, ErrorKind::Char))
                            }
                        } else {
                            ParseOutcome::Failed(ParseErrorModel::Nom(q, ErrorKind::Char))
                        }
                    },
                }
            } else {
                ParseOutcome::Failed(ParseErrorModel::Nom(tb, ErrorKind::Char))
            }
        },
    }
}

/// Grammar rule for a conditional without `else`: `if`, a trimmed condition
/// expression, and a trimmed block.
#[verifier::opaque]
pub open spec fn spec_parse_if(input: Seq<u8>, pos: int) -> ParseOutcome<StmtModel>
    decreases rem(input, pos), 75int,
{
    match spec_keyword(Keyword::If, input, pos) {
        ParseOutcome::Failed(e) => ParseOutcome::Failed(e),
        ParseOutcome::Parsed(_, pk) => match spec_trim_expression(input, ge_clamp(pk, pos)) {
            ParseOutcome::Failed(e) => ParseOutcome::Failed(e),
            ParseOutcome::Parsed(c, p1) => {
                let t = ge_clamp(p1, pos) + trivia_len(input, ge_clamp(p1, pos));
                match spec_block(input, t) {
                    ParseOutcome::Failed(e) => ParseOutcome::Failed(e),
                    ParseOutcome::Parsed(b, p2) => ParseOutcome::Parsed(
                        StmtModel::If(c, b),
                        ge_clamp(p2, t) + trivia_len(input, ge_clamp(p2, t)),
                    ),
                }
            },
        },
    }
}

/// Grammar rule for a conditional with `else`: `if`, a trimmed condition,
/// a trimmed block, `else`, and a trimmed alternative block.
#[verifier::opaque]
#[verifier::rlimit(100)]
pub open spec fn spec_parse_if_else(input: Seq<u8>, pos: int) -> ParseOutcome<StmtModel>
    decreases rem(input, pos), 75int,
{
    match spec_keyword(Keyword::If, input, pos) {
        ParseOutcome::Failed(e) => ParseOutcome::Failed(e),
        ParseOutcome::Parsed(_, pk) => match spec_trim_expression(input, ge_clamp(pk, pos)) {
            ParseOutcome::Failed(e) => ParseOutcome::Failed(e),
            ParseOutcome::Parsed(c, p1) => {
                let t = ge_clamp(p1, pos) + trivia_len(input, ge_clamp(p1, pos));
                match spec_block(input, t) {
                    ParseOutcome::Failed(e) => ParseOutcome::Failed(e),
                    ParseOutcome::Parsed(b, p2) => {
                        let t2 = ge_clamp(p2, t) + trivia_len(input, ge_clamp(p2, t));
                        match spec_keyword(Keyword::Else, input, t2) {
                            ParseOutcome::Failed(e) => ParseOutcome::Failed(e),
                            ParseOutcome::Parsed(_, p3) => {
                                let t3 = ge_clamp(p3, t2) + trivia_len(input, ge_clamp(p3, t2));
                                match spec_block(input, t3) {
                                    ParseOutcome::Failed(e) => ParseOutcome::Failed(e),
                                    ParseOutcome::Parsed(o, p4) => ParseOutcome::Parsed(
                                        StmtModel::IfElse(c, b, o),
                                        ge_clamp(p4, t3) + trivia_len(input, ge_clamp(p4, t3)),
                                    ),
                                }
                            },
                        }
                    },
                }
            },
        },
    }
}

/// Grammar rule for a `while` loop: `while`, a trimmed condition, and a
/// trimmed body block.
#[verifier::opaque]
pub open spec fn spec_parse_while(input: Seq<u8>, pos: int) -> ParseOutcome<StmtModel>
    decreases rem(input, pos), 75int,
{
    match spec_keyword(Keyword::While, input, pos) {
        ParseOutcome::Failed(e) => ParseOutcome::Failed(e),
        ParseOutcome::Parsed(_, pk) => match spec_trim_expression(input, ge_clamp(pk, pos)) {
            ParseOutcome::Failed(e) => ParseOutcome::Failed(e),
            ParseOutcome::Parsed(c, p1) => {
                let t = ge_clamp(p1, pos) + trivia_len(input, ge_clamp(p1, pos));
                match spec_block(input, t) {
                    ParseOutcome::Failed(e) => ParseOutcome::Failed(e),
                    ParseOutcome::Parsed(b, p2) => ParseOutcome::Parsed(
                        StmtModel::While(c, b),
                        ge_clamp(p2, t) + trivia_len(input, ge_clamp(p2, t)),
                    ),
                }
            },
        },
    }
}

/// Grammar rule for a `for` loop: `for`, a trimmed loop variable, `in`, a
/// trimmed source expression, and a trimmed body block.
#[verifier::opaque]
pub open spec fn spec_parse_for(input: Seq<u8>, pos: int) -> ParseOutcome<StmtModel>
    decreases rem(input, pos), 75int,
{
    match spec_keyword(Keyword::For, input, pos) {
        ParseOutcome::Failed(e) => ParseOutcome::Failed(e),
        ParseOutcome::Parsed(_, pk) => {
            let t = ge_clamp(pk, pos) + trivia_len(input, ge_clamp(pk, pos));
            match spec_identifier(input, t) {
                ParseOutcome::Failed(e) => ParseOutcome::Failed(e),
                ParseOutcome::Parsed(name, p1) => {
                    let t2 = ge_clamp(p1, t) + trivia_len(input, ge_clamp(p1, t));
                    match spec_keyword(Keyword::In, input, t2) {
                        ParseOutcome::Failed(e) => ParseOutcome::Failed(e),
                        ParseOutcome::Parsed(_, p2) => match spec_trim_expression(
                            input,
                            ge_clamp(p2, t2),
                        ) {
                            ParseOutcome::Failed(e) => ParseOutcome::Failed(e),
                            ParseOutcome::Parsed(le, p3) => {
                                let t3 = ge_clamp(p3, pos) + trivia_len(input, ge_clamp(p3, pos));
                                match spec_block(input, t3) {
                                    ParseOutcome::Failed(e) => ParseOutcome::Failed(e),
                                    ParseOutcome::Parsed(b, p4) => ParseOutcome::Parsed(
                                        StmtModel::For(name, le, b),
                                        ge_clamp(p4, t3) + trivia_len(input, ge_clamp(p4, t3)),
                                    ),
                                }
                            },
                        },
                    }
                },
            }
        },
    }
}

/// Grammar rule for a `return`: the keyword and an optional trimmed result
/// expression.
#[verifier::opaque]
pub open spec fn spec_parse_return(input: Seq<u8>, pos: int) -> ParseOutcome<StmtModel>
    decreases rem(input, pos), 75int,
{
    match spec_keyword(Keyword::Return, input, pos) {
        ParseOutcome::Failed(e) => ParseOutcome::Failed(e),
        ParseOutcome::Parsed(_, pk) => match spec_trim_expression(input, ge_clamp(pk, pos)) {
            ParseOutcome::Parsed(e, p2) => ParseOutcome::Parsed(StmtModel::Return(Some(e)), p2),
            ParseOutcome::Failed(_) => ParseOutcome::Parsed(
                StmtModel::Return(None),
                ge_clamp(pk, pos),
            ),
        },
    }
}

/// Further parameter names of a definition, each after a comma, collected
/// while they parse and consume input.
pub open spec fn spec_params_more(input: Seq<u8>, pos: int) -> (Seq<Seq<u8>>, int)
    decreases rem(input, pos), 73int,
{
    if 0 <= pos < input.len() && input[pos] == ',' as u8 {
        let t = (pos + 1) + trivia_len(input, pos + 1);
        match spec_identifier(input, t) {
            ParseOutcome::Failed(_) => (seq![], pos),
            ParseOutcome::Parsed(name, p) => {
                let t2 = ge_clamp(p, t) + trivia_len(input, ge_clamp(p, t));
                if 0 <= pos < t2 <= input.len() {
                    let (rest, p2) = spec_params_more(input, t2);
                    (seq![name] + rest, p2)
                } else {
                    (seq![], pos)
                }
            },
        }
    } else {
        (seq![], pos)
    }
}

/// A comma-separated list of trimmed parameter names, possibly empty.
pub open spec fn spec_params(input: Seq<u8>, pos: int) -> (Seq<Seq<u8>>, int)
    decreases rem(input, pos), 74int,
{
    let t = pos + trivia_len(input, pos);
    match spec_identifier(input, t) {
        ParseOutcome::Failed(_) => (seq![], pos),
        ParseOutcome::Parsed(name, p) => {
            let t2 = ge_clamp(p, t) + trivia_len(input, ge_clamp(p, t));
            let (rest, p2) = spec_params_more(input, t2);
            (seq![name] + rest, p2)
        },
    }
}

/// Grammar rule for a function definition: `fn`, a trimmed name, a
/// parenthesized comma-separated parameter list, and a trimmed body block.
#[verifier::opaque]
pub open spec fn spec_parse_definition(input: Seq<u8>, pos: int) -> ParseOutcome<StmtModel>
    decreases rem(input, pos), 75int,
{
    match spec_keyword(Keyword::Fn, input, pos) {
        ParseOutcome::Failed(e) => ParseOutcome::Failed(e),
        ParseOutcome::Parsed(_, pk) => {
            let t = ge_clamp(pk, pos) + trivia_len(input, ge_clamp(pk, pos));
            match spec_identifier(input, t) {
                ParseOutcome::Failed(e) => ParseOutcome::Failed(e),
                ParseOutcome::Parsed(name, p1) => {
                    let q1 = ge_clamp(p1, t) + trivia_len(input, ge_clamp(p1, t));
                    if 0 <= q1 < input.len() && input[q1] == '(' as u8 {
                        let (params, p2) = spec_params(input, q1 + 1);
                        let q2 = ge_clamp(p2, q1 + 1);
                        if 0 <= q2 < input.len() && input[q2] == ')' as u8 {
                            let t3 = (q2 + 1) + trivia_len(input, q2 + 1);
                            match spec_block(input, t3) {
                                ParseOutcome::Failed(e) => ParseOutcome::Failed(e),
                                ParseOutcome::Parsed(b, p3) => ParseOutcome::Parsed(
                                    StmtModel::Definition(name, params, b),
                                    ge_clamp(p3, t3) + trivia_len(input, ge_clamp(p3, t3)),
                                ),
                            }
                        } else {
                            ParseOutcome::Failed(ParseErrorModel::Nom(q2, ErrorKind::Char))
                        }
                    } else {
                        ParseOutcome::Failed(ParseErrorModel::Nom(q1, ErrorKind::Char))
                    }
                },
            }
        },
    }
}

/// Grammar rule for the statement alternatives, tried in a fixed priority
/// order: the first that matches wins; the deepest failure wins when all
/// fail.
#[verifier::opaque]
pub open spec fn spec_statement_alternatives(input: Seq<u8>, pos: int) -> ParseOutcome<StmtModel>
    decreases rem(input, pos), 79int,
{
    match spec_parse_return(input, pos) {
        ParseOutcome::Parsed(s, p) => ParseOutcome::Parsed(s, p),
        ParseOutcome::Failed(e1) => match spec_parse_definition(input, pos) {
            ParseOutcome::Parsed(s, p) => ParseOutcome::Parsed(s, p),
            ParseOutcome::Failed(e2) => match spec_parse_for(input, pos) {
                ParseOutcome::Parsed(s, p) => ParseOutcome::Parsed(s, p),
                ParseOutcome::Failed(e3) => match spec_parse_while(input, pos) {
                    ParseOutcome::Parsed(s, p) => ParseOutcome::Parsed(s, p),
                    ParseOutcome::Failed(e4) => match spec_parse_if_else(input, pos) {
                        ParseOutcome::Parsed(s, p) => ParseOutcome::Parsed(s, p),
                        ParseOutcome::Failed(e5) => match spec_parse_if(input, pos) {
                            ParseOutcome::Parsed(s, p) => ParseOutcome::Parsed(s, p),
                            ParseOutcome::Failed(e6) => match spec_parse_index_assignment(
                                input,
                                pos,
                            ) {
                                ParseOutcome::Parsed(s, p) => ParseOutcome::Parsed(s, p),
                                ParseOutcome::Failed(e7) => match spec_parse_assignment(
                                    input,
                                    pos,
                                ) {
                                    ParseOutcome::Parsed(s, p) => ParseOutcome::Parsed(s, p),
                                    ParseOutcome::Failed(e8) => match spec_parse_initialization(
                                        input,
                                        pos,
                                    ) {
                                        ParseOutcome::Parsed(s, p) => ParseOutcome::Parsed(s, p),
                                        ParseOutcome::Failed(e9) => match spec_parse_block(
                                            input,
                                            pos,
                                        ) {
                                            ParseOutcome::Parsed(s, p) => ParseOutcome::Parsed(
                                                s,
                                                p,
                                            ),
                                            ParseOutcome::Failed(e10) => match spec_parse_simple(
                                                input,
                                                pos,
                                            ) {
                                                ParseOutcome::Parsed(s, p) => ParseOutcome::Parsed(
                                                    s,
                                                    p,
                                                ),
                                                ParseOutcome::Failed(e11) => ParseOutcome::Failed(
                                                    spec_deeper(
                                                        spec_deeper(
                                                            spec_deeper(
                                                                spec_deeper(
                                                                    spec_deeper(
                                                                        spec_deeper(
                                                                            spec_deeper(
                                                                                spec_deeper(
                                                                                    spec_deeper(
                                                                                        spec_deeper(
                                                                                            e1,
                                                                                            e2,
                                                                                        ),
                                                                                        e3,
                                                                                    ),
                                                                                    e4,
                                                                                ),
                                                                                e5,
                                                                            ),
                                                                            e6,
                                                                        ),
                                                                        e7,
                                                                    ),
                                                                    e8,
                                                                ),
                                                                e9,
                                                            ),
                                                            e10,
                                                        ),
                                                        e11,
                                                    ),
                                                ),
                                            },
                                        },
                                    },
                                },
                            },
                        },
                    },
                },
            },
        },
    }
}

/// Grammar rule for one statement: one of the alternatives, optionally
/// terminated by an insignificant `;`.
#[verifier::opaque]
pub open spec fn spec_statement(input: Seq<u8>, pos: int) -> ParseOutcome<StmtModel>
    decreases rem(input, pos), 80int,
{
    match spec_statement_alternatives(input, pos) {
        ParseOutcome::Failed(e) => ParseOutcome::Failed(e),
        ParseOutcome::Parsed(s, p) => if 0 <= p < input.len() && input[p] == ';' as u8 {
            ParseOutcome::Parsed(s, p + 1)
        } else {
            ParseOutcome::Parsed(s, p)
        },
    }
}

impl Statement {
    /// An identical deep copy of this statement.
    pub fn duplicate(&self) -> (r: Statement)
        ensures
            r@ == self@,
        decreases *self,
    {
        match self {
            Statement::Simple(e) => Statement::Simple(e.duplicate()),
            Statement::Block(b) => Statement::Block(b.duplicate()),
            Statement::Initialization(name, e) => Statement::Initialization(
                copy_bytes(name),
                e.duplicate(),
            ),
            Statement::Assignment(name, e) => Statement::Assignment(
                copy_bytes(name),
                e.duplicate(),
            ),
            Statement::IndexAssignment(name, idx, e) => Statement::IndexAssignment(
                copy_bytes(name),
                idx.duplicate(),
                e.duplicate(),
            ),
            Statement::If(c, b) => Statement::If(c.duplicate(), b.duplicate()),
            Statement::IfElse(c, b, o) => Statement::IfElse(
                c.duplicate(),
                b.duplicate(),
                o.duplicate(),
            ),
            Statement::While(c, b) => Statement::While(c.duplicate(), b.duplicate()),
            Statement::For(name, e, b) => Statement::For(
                copy_bytes(name),
                e.duplicate(),
                b.duplicate(),
            ),
            Statement::Definition(name, params, b) => Statement::Definition(
                copy_bytes(name),
                copy_names(params),
                b.duplicate(),
            ),
            Statement::Return(e) => Statement::Return(
                match e {
                    Some(e) => Some(e.duplicate()),
                    None => None,
                },
            ),
        }
    }
}

/// Recognizes a bare expression statement at `pos`.
fn parse_simple(input: &Vec<u8>, pos: usize) -> (r: Result<(Statement, usize), SplashParseError>)
    requires
        pos <= input@.len(),
    ensures
        match r {
            Ok((st, p)) => spec_parse_simple(input@, pos as int) == ParseOutcome::Parsed(
                st@,
                p as int,
            ) && pos < p <= input@.len(),
            Err(e) => spec_parse_simple(input@, pos as int) == ParseOutcome::<StmtModel>::Failed(
                e@,
            ),
        },
    decreases input@.len() - pos, 75int,
{
    proof {
        reveal_with_fuel(spec_parse_simple, 1);
        reveal_with_fuel(crate::parse::parsers::expression::spec_trim_expression, 1);
        reveal_with_fuel(crate::parse::parsers::expression::spec_expression, 1);
    }
    match trim_expression(input, pos) {
        Ok((e, p)) => Ok((Statement::Simple(e), p)),
        Err(e) => Err(e),
    }
}

/// Recognizes a bare nested block statement at `pos`.
fn parse_block(input: &Vec<u8>, pos: usize) -> (r: Result<(Statement, usize), SplashParseError>)
    requires
        pos <= input@.len(),
    ensures
        match r {
            Ok((st, p)) => spec_parse_block(input@, pos as int) == ParseOutcome::Parsed(
                st@,
                p as int,
            ) && pos < p <= input@.len(),
            Err(e) => spec_parse_block(input@, pos as int) == ParseOutcome::<StmtModel>::Failed(e@),
        },
    decreases input@.len() - pos, 75int,
{
    proof {
        reveal_with_fuel(spec_parse_block, 1);
    }
    match crate::parse::parsers::block::block(input, pos) {
        Ok((b, p)) => Ok((Statement::Block(b), p)),
        Err(e) => Err(e),
    }
}

/// Recognizes an initialization statement at `pos`.
#[verifier::rlimit(100)]
#[verifier::spinoff_prover]
fn parse_initialization(input: &Vec<u8>, pos: usize) -> (r: Result<
    (Statement, usize),
    SplashParseError,
>)
    requires
        pos <= input@.len(),
    ensures
        match r {
            Ok((st, p)) => spec_parse_initialization(input@, pos as int) == ParseOutcome::Parsed(
                st@,
                p as int,
            ) && pos < p <= input@.len(),
            Err(e) => spec_parse_initialization(input@, pos as int) == ParseOutcome::<
                StmtModel,
            >::Failed(e@),
        },
    decreases input@.len() - pos, 75int,
{
    proof {
        reveal_with_fuel(spec_parse_initialization, 1);
        reveal_with_fuel(crate::parse::parsers::expression::spec_trim_expression, 1);
        reveal_with_fuel(crate::parse::parsers::expression::spec_expression, 1);
    }
    let pk = match keyword(Keyword::Let, input, pos) {
        Ok(p) => p,
        Err(e) => {
            return Err(e);
        }
    };
    proof {
        assert(ge_clamp(pk as int, pos as int) == pk as int);
    }
    let t = crate::parse::combinators::trim::trim(input, pk);
    let (name, p2) = match identifier(input, t) {
        Ok(v) => v,
        Err(e) => {
            return Err(e);
        }
    };
    proof {
        assert(ge_clamp(p2 as int, t as int) == p2 as int);
    }
    let t2 = crate::parse::combinators::trim::trim(input, p2);
    if !(t2 < input.len() && input[t2] == '=' as u8) {
        return Err(SplashParseError::Nom(t2, ErrorKind::Char));
    }
    match trim_expression(input, t2 + 1) {
        Ok((e, p3)) => Ok((Statement::Initialization(name, e), p3)),
        Err(e) => Err(e),
    }
}

/// Recognizes an assignment statement at `pos`.
#[verifier::rlimit(100)]
#[verifier::spinoff_prover]
fn parse_assignment(input: &Vec<u8>, pos: usize) -> (r: Result<
    (Statement, usize),
    SplashParseError,
>)
    requires
        pos <= input@.len(),
    ensures
        match r {
            Ok((st, p)) => spec_parse_assignment(input@, pos as int) == ParseOutcome::Parsed(
                st@,
                p as int,
            ) && pos < p <= input@.len(),
            Err(e) => spec_parse_assignment(input@, pos as int) == ParseOutcome::<
                StmtModel,
            >::Failed(e@),
        },
    decreases input@.len() - pos, 75int,
{
    proof {
        reveal_with_fuel(spec_parse_assignment, 1);
        reveal_with_fuel(crate::parse::parsers::expression::spec_trim_expression, 1);
        reveal_with_fuel(crate::parse::parsers::expression::spec_expression, 1);
    }
    let t = crate::parse::combinators::trim::trim(input, pos);
    let (name, p2) = match identifier(input, t) {
        Ok(v) => v,
        Err(e) => {
            return Err(e);
        }
    };
    proof {
        assert(ge_clamp(p2 as int, t as int) == p2 as int);
    }
    let t2 = crate::parse::combinators::trim::trim(input, p2);
    if !(t2 < input.len() && input[t2] == '=' as u8) {
        return Err(SplashParseError::Nom(t2, ErrorKind::Char));
    }
    match trim_expression(input, t2 + 1) {
        Ok((e, p3)) => Ok((Statement::Assignment(name, e), p3)),
        Err(e) => Err(e),
    }
}

/// Recognizes an assignment to one list element at `pos`.
#[verifier::rlimit(100)]
#[verifier::spinoff_prover]
fn parse_index_assignment(input: &Vec<u8>, pos: usize) -> (r: Result<
    (Statement, usize),
    SplashParseError,
>)
    requires
        pos <= input@.len(),
    ensures
        match r {
            Ok((st, p)) => spec_parse_index_assignment(input@, pos as int) == ParseOutcome::Parsed(
                st@,
                p as int,
            ) && pos < p <= input@.len(),
            Err(e) => spec_parse_index_assignment(input@, pos as int) == ParseOutcome::<
                StmtModel,
            >::Failed(e@),
        },
    decreases input@.len() - pos, 75int,
{
    proof {
        reveal_with_fuel(spec_parse_index_assignment, 1);
        reveal_with_fuel(crate::parse::parsers::expression::spec_trim_expression, 1);
        reveal_with_fuel(crate::parse::parsers::expression::spec_expression, 1);
    }
    let t = crate::parse::combinators::trim::trim(input, pos);
    let (name, p1) = match identifier(input, t) {
        Ok(v) => v,
        Err(e) => {
            return Err(e);
        }
    };
    proof {
        assert(ge_clamp(p1 as int, t as int) == p1 as int);
    }
    let tb = crate::parse::combinators::trim::trim(input, p1);
    if !(tb < input.len() && input[tb] == '[' as u8) {
        return Err(SplashParseError::Nom(tb, ErrorKind::Char));
    }
    let (ie, p2) = match trim_expression(input, tb + 1) {
        Ok(v) => v,
        Err(e) => {
            return Err(e);
        }
    };
    proof {
        assert(ge_clamp(p2 as int, tb + 1) == p2 as int);
    }
    if !(p2 < input.len() && input[p2] == ']' as u8) {
        return Err(SplashParseError::Nom(p2, ErrorKind::Char));
    }
    let t3 = crate::parse::combinators::trim::trim(input, p2 + 1);
    if !(t3 < input.len() && input[t3] == '=' as u8) {
        return Err(SplashParseError::Nom(t3, ErrorKind::Char));
    }
    match trim_expression(input, t3 + 1) {
        Ok((ve, p3)) => Ok((Statement::IndexAssignment(name, ie, ve), p3)),
        Err(e) => Err(e),
    }
}

/// Recognizes a conditional without `else` at `pos`.
#[verifier::rlimit(100)]
#[verifier::spinoff_prover]
fn parse_if(input: &Vec<u8>, pos: usize) -> (r: Result<(Statement, usize), SplashParseError>)
    requires
        pos <= input@.len(),
    ensures
        match r {
            Ok((st, p)) => spec_parse_if(input@, pos as int) == ParseOutcome::Parsed(st@, p as int)
                && pos < p <= input@.len(),
            Err(e) => spec_parse_if(input@, pos as int) == ParseOutcome::<StmtModel>::Failed(e@),
        },
    decreases input@.len() - pos, 75int,
{
    proof {
        reveal_with_fuel(spec_parse_if, 1);
        reveal_with_fuel(crate::parse::parsers::expression::spec_trim_expression, 1);
        reveal_with_fuel(crate::parse::parsers::expression::spec_expression, 1);
    }
    let pk = match keyword(Keyword::If, input, pos) {
        Ok(p) => p,
        Err(e) => {
            return Err(e);
        }
    };
    proof {
        assert(ge_clamp(pk as int, pos as int) == pk as int);
    }
    let (c, p1) = match trim_expression(input, pk) {
        Ok(v) => v,
        Err(e) => {
            return Err(e);
        }
    };
    proof {
        assert(ge_clamp(p1 as int, pos as int) == p1 as int);
    }
    let t = crate::parse::combinators::trim::trim(input, p1);
    match crate::parse::parsers::block::block(input, t) {
        Ok((b, p2)) => {
            proof {
                assert(ge_clamp(p2 as int, t as int) == p2 as int);
            }
            let p3 = crate::parse::combinators::trim::trim(input, p2);
            Ok((Statement::If(c, b), p3))
        }
        Err(e) => Err(e),
    }
}

/// Recognizes a conditional with `else` at `pos`.
#[verifier::rlimit(100)]
#[verifier::spinoff_prover]
fn parse_if_else(input: &Vec<u8>, pos: usize) -> (r: Result<(Statement, usize), SplashParseError>)
    requires
        pos <= input@.len(),
    ensures
        match r {
            Ok((st, p)) => spec_parse_if_else(input@, pos as int) == ParseOutcome::Parsed(
                st@,
                p as int,
            ) && pos < p <= input@.len(),
            Err(e) => spec_parse_if_else(input@, pos as int) == ParseOutcome::<StmtModel>::Failed(
                e@,
            ),
        },
    decreases input@.len() - pos, 75int,
{
    proof {
        reveal_with_fuel(spec_parse_if_else, 1);
        reveal_with_fuel(crate::parse::parsers::expression::spec_trim_expression, 1);
        reveal_with_fuel(crate::parse::parsers::expression::spec_expression, 1);
    }
    let pk = match keyword(Keyword::If, input, pos) {
        Ok(p) => p,
        Err(e) => {
            return Err(e);
        }
    };
    proof {
        assert(ge_clamp(pk as int, pos as int) == pk as int);
    }
    let (c, p1) = match trim_expression(input, pk) {
        Ok(v) => v,
        Err(e) => {
            return Err(e);
        }
    };
    proof {
        assert(ge_clamp(p1 as int, pos as int) == p1 as int);
    }
    let t = crate::parse::combinators::trim::trim(input, p1);
    let (b, p2) = match crate::parse::parsers::block::block(input, t) {
        Ok(v) => v,
        Err(e) => {
            return Err(e);
        }
    };
    proof {
        assert(ge_clamp(p2 as int, t as int) == p2 as int);
    }
    let t2 = crate::parse::combinators::trim::trim(input, p2);
    let p3 = match keyword(Keyword::Else, input, t2) {
        Ok(p) => p,
        Err(e) => {
            return Err(e);
        }
    };
    proof {
        assert(ge_clamp(p3 as int, t2 as int) == p3 as int);
    }
    let t3 = crate::parse::combinators::trim::trim(input, p3);
    match crate::parse::parsers::block::block(input, t3) {
        Ok((o, p4)) => {
            proof {
                assert(ge_clamp(p4 as int, t3 as int) == p4 as int);
            }
            let p5 = crate::parse::combinators::trim::trim(input, p4);
            Ok((Statement::IfElse(c, b, o), p5))
        }
        Err(e) => Err(e),
    }
}

/// Recognizes a `while` loop statement at `pos`.
#[verifier::rlimit(100)]
#[verifier::spinoff_prover]
fn parse_while(input: &Vec<u8>, pos: usize) -> (r: Result<(Statement, usize), SplashParseError>)
    requires
        pos <= input@.len(),
    ensures
        match r {
            Ok((st, p)) => spec_parse_while(input@, pos as int) == ParseOutcome::Parsed(
                st@,
                p as int,
            ) && pos < p <= input@.len(),
            Err(e) => spec_parse_while(input@, pos as int) == ParseOutcome::<StmtModel>::Failed(e@),
        },
    decreases input@.len() - pos, 75int,
{
    proof {
        reveal_with_fuel(spec_parse_while, 1);
        reveal_with_fuel(crate::parse::parsers::expression::spec_trim_expression, 1);
        reveal_with_fuel(crate::parse::parsers::expression::spec_expression, 1);
    }
    let pk = match keyword(Keyword::While, input, pos) {
        Ok(p) => p,
        Err(e) => {
            return Err(e);
        }
    };
    proof {
        assert(ge_clamp(pk as int, pos as int) == pk as int);
    }
    let (c, p1) = match trim_expression(input, pk) {
        Ok(v) => v,
        Err(e) => {
            return Err(e);
        }
    };
    proof {
        assert(ge_clamp(p1 as int, pos as int) == p1 as int);
    }
    let t = crate::parse::combinators::trim::trim(input, p1);
    match crate::parse::parsers::block::block(input, t) {
        Ok((b, p2)) => {
            proof {
                assert(ge_clamp(p2 as int, t as int) == p2 as int);
            }
            let p3 = crate::parse::combinators::trim::trim(input, p2);
            Ok((Statement::While(c, b), p3))
        }
        Err(e) => Err(e),
    }
}

/// Recognizes a `for` loop statement at `pos`.
#[verifier::rlimit(100)]
#[verifier::spinoff_prover]
fn parse_for(input: &Vec<u8>, pos: usize) -> (r: Result<(Statement, usize), SplashParseError>)
    requires
        pos <= input@.len(),
    ensures
        match r {
            Ok((st, p)) => spec_parse_for(input@, pos as int) == ParseOutcome::Parsed(
                st@,
                p as int,
            ) && pos < p <= input@.len(),
            Err(e) => spec_parse_for(input@, pos as int) == ParseOutcome::<StmtModel>::Failed(e@),
        },
    decreases input@.len() - pos, 75int,
{
    proof {
        reveal_with_fuel(spec_parse_for, 1);
        reveal_with_fuel(crate::parse::parsers::expression::spec_trim_expression, 1);
        reveal_with_fuel(crate::parse::parsers::expression::spec_expression, 1);
    }
    let pk = match keyword(Keyword::For, input, pos) {
        Ok(p) => p,
        Err(e) => {
            return Err(e);
        }
    };
    proof {
        assert(ge_clamp(pk as int, pos as int) == pk as int);
    }
    let t = crate::parse::combinators::trim::trim(input, pk);
    let (name, p1) = match identifier(input, t) {
        Ok(v) => v,
        Err(e) => {
            return Err(e);
        }
    };
    proof {
        assert(ge_clamp(p1 as int, t as int) == p1 as int);
    }
    let t2 = crate::parse::combinators::trim::trim(input, p1);
    let p2 = match keyword(Keyword::In, input, t2) {
        Ok(p) => p,
        Err(e) => {
            return Err(e);
        }
    };
    proof {
        assert(ge_clamp(p2 as int, t2 as int) == p2 as int);
    }
    let (le, p3) = match trim_expression(input, p2) {
        Ok(v) => v,
        Err(e) => {
            return Err(e);
        }
    };
    proof {
        assert(ge_clamp(p3 as int, pos as int) == p3 as int);
    }
    let t3 = crate::parse::combinators::trim::trim(input, p3);
    match crate::parse::parsers::block::block(input, t3) {
        Ok((b, p4)) => {
            proof {
                assert(ge_clamp(p4 as int, t3 as int) == p4 as int);
            }
            let p5 = crate::parse::combinators::trim::trim(input, p4);
            Ok((Statement::For(name, le, b), p5))
        }
        Err(e) => Err(e),
    }
}

/// Recognizes a `return` statement at `pos`.
fn parse_return(input: &Vec<u8>, pos: usize) -> (r: Result<(Statement, usize), SplashParseError>)
    requires
        pos <= input@.len(),
    ensures
        match r {
            Ok((st, p)) => spec_parse_return(input@, pos as int) == ParseOutcome::Parsed(
                st@,
                p as int,
            ) && pos < p <= input@.len(),
            Err(e) => spec_parse_return(input@, pos as int) == ParseOutcome::<StmtModel>::Failed(
                e@,
            ),
        },
    decreases input@.len() - pos, 75int,
{
    proof {
        reveal_with_fuel(spec_parse_return, 1);
        reveal_with_fuel(crate::parse::parsers::expression::spec_trim_expression, 1);
        reveal_with_fuel(crate::parse::parsers::expression::spec_expression, 1);
    }
    let pk = match keyword(Keyword::Return, input, pos) {
        Ok(p) => p,
        Err(e) => {
            return Err(e);
        }
    };
    proof {
        assert(ge_clamp(pk as int, pos as int) == pk as int);
    }
    match trim_expression(input, pk) {
        Ok((e, p2)) => Ok((Statement::Return(Some(e)), p2)),
        Err(_) => Ok((Statement::Return(None), pk)),
    }
}

/// Recognizes the comma-separated parameter names of a definition.
fn parse_params(input: &Vec<u8>, pos: usize) -> (r: (Vec<Vec<u8>>, usize))
    requires
        pos <= input@.len(),
    ensures
        spec_params(input@, pos as int) == (bytes_models(r.0@), r.1 as int),
        pos <= r.1 <= input@.len(),
    decreases input@.len() - pos, 74int,
{
    proof {
        reveal_with_fuel(spec_params, 1);
        reveal_with_fuel(spec_params_more, 1);
    }
    let mut out: Vec<Vec<u8>> = Vec::new();
    let t = crate::parse::combinators::trim::trim(input, pos);
    let first_end = match identifier(input, t) {
        Err(_) => {
            proof {
                assert(bytes_models(out@).len() == 0);
                assert(spec_params(input@, pos as int) == (bytes_models(out@), pos as int));
            }
            return (out, pos);
        }
        Ok((name, p)) => {
            let ghost nm = name@;
            out.push(name);
            proof {
                assert(out@.drop_last() =~= Seq::<Vec<u8>>::empty());
                assert(bytes_models(out@.drop_last()).len() == 0);
                assert(bytes_models(out@) =~= seq![nm]);
                assert(ge_clamp(p as int, t as int) == p as int);
            }
            p
        }
    };
    let mut i: usize = crate::parse::combinators::trim::trim(input, first_end);
    loop
        invariant
            pos < i <= input@.len(),
            out@.len() >= 1,
            ({
                let (rest, p2) = spec_params_more(input@, i as int);
                spec_params(input@, pos as int) == (bytes_models(out@) + rest, p2)
            }),
        decreases input@.len() - i,
    {
        let ghost i0 = i as int;
        let ghost models0 = bytes_models(out@);
        if !(i < input.len() && input[i] == ',' as u8) {
            proof {
                reveal_with_fuel(spec_params_more, 1);
                assert(spec_params_more(input@, i0) == (Seq::<Seq<u8>>::empty(), i0));
                assert(bytes_models(out@) + Seq::<Seq<u8>>::empty() =~= bytes_models(out@));
            }
            return (out, i);
        }
        let t2 = crate::parse::combinators::trim::trim(input, i + 1);
        match identifier(input, t2) {
            Err(_) => {
                proof {
                    reveal_with_fuel(spec_params_more, 1);
                    assert(spec_params_more(input@, i0) == (Seq::<Seq<u8>>::empty(), i0));
                    assert(bytes_models(out@) + Seq::<Seq<u8>>::empty() =~= bytes_models(out@));
                }
                return (out, i);
            }
            Ok((name, p)) => {
                proof {
                    assert(ge_clamp(p as int, t2 as int) == p as int);
                }
                let p2 = crate::parse::combinators::trim::trim(input, p);
                let ghost nm = name@;
                let ghost o0 = out@;
                out.push(name);
                proof {
                    reveal_with_fuel(spec_params_more, 1);
                    let (rest2, p3) = spec_params_more(input@, p2 as int);
                    assert(spec_params_more(input@, i0) == (seq![nm] + rest2, p3));
                    assert(out@.drop_last() =~= o0);
                    assert(bytes_models(out@) =~= models0.push(nm));
                    assert(models0.push(nm) + rest2 =~= models0 + (seq![nm] + rest2));
                }
                i = p2;
            }
        }
    }
}

/// Recognizes a function definition statement at `pos`.
#[verifier::rlimit(100)]
#[verifier::spinoff_prover]
fn parse_definition(input: &Vec<u8>, pos: usize) -> (r: Result<
    (Statement, usize),
    SplashParseError,
>)
    requires
        pos <= input@.len(),
    ensures
        match r {
            Ok((st, p)) => spec_parse_definition(input@, pos as int) == ParseOutcome::Parsed(
                st@,
                p as int,
            ) && pos < p <= input@.len(),
            Err(e) => spec_parse_definition(input@, pos as int) == ParseOutcome::<
                StmtModel,
            >::Failed(e@),
        },
    decreases input@.len() - pos, 75int,
{
    proof {
        reveal_with_fuel(spec_parse_definition, 1);
    }
    let pk = match keyword(Keyword::Fn, input, pos) {
        Ok(p) => p,
        Err(e) => {
            return Err(e);
        }
    };
    proof {
        assert(ge_clamp(pk as int, pos as int) == pk as int);
    }
    let t = crate::parse::combinators::trim::trim(input, pk);
    let (name, p1) = match identifier(input, t) {
        Ok(v) => v,
        Err(e) => {
            return Err(e);
        }
    };
    proof {
        assert(ge_clamp(p1 as int, t as int) == p1 as int);
    }
    let q1 = crate::parse::combinators::trim::trim(input, p1);
    if !(q1 < input.len() && input[q1] == '(' as u8) {
        return Err(SplashParseError::Nom(q1, ErrorKind::Char));
    }
    let (params, p2) = parse_params(input, q1 + 1);
    proof {
        assert(ge_clamp(p2 as int, q1 + 1) == p2 as int);
    }
    if !(p2 < input.len() && input[p2] == ')' as u8) {
        return Err(SplashParseError::Nom(p2, ErrorKind::Char));
    }
    let t3 = crate::parse::combinators::trim::trim(input, p2 + 1);
    match crate::parse::parsers::block::block(input, t3) {
        Ok((b, p3)) => {
            proof {
                assert(ge_clamp(p3 as int, t3 as int) == p3 as int);
            }
            let p4 = crate::parse::combinators::trim::trim(input, p3);
            Ok((Statement::Definition(name, params, b), p4))
        }
        Err(e) => Err(e),
    }
}

/// Recognizes one statement alternative at `pos`, in priority order.
#[verifier::rlimit(100)]
#[verifier::spinoff_prover]
fn statement_alternatives(input: &Vec<u8>, pos: usize) -> (r: Result<
    (Statement, usize),
    SplashParseError,
>)
    requires
        pos <= input@.len(),
    ensures
        match r {
            Ok((st, p)) => spec_statement_alternatives(input@, pos as int) == ParseOutcome::Parsed(
                st@,
                p as int,
            ) && pos < p <= input@.len(),
            Err(e) => spec_statement_alternatives(input@, pos as int) == ParseOutcome::<
                StmtModel,
            >::Failed(e@),
        },
    decreases input@.len() - pos, 79int,
{
    proof {
        reveal_with_fuel(spec_statement_alternatives, 1);
    }
    let e1 = match parse_return(input, pos) {
        Ok(v) => {
            return Ok(v);
        }
        Err(e) => e,
    };
    let e2 = match parse_definition(input, pos) {
        Ok(v) => {
            return Ok(v);
        }
        Err(e) => e,
    };
    let e3 = match parse_for(input, pos) {
        Ok(v) => {
            return Ok(v);
        }
        Err(e) => e,
    };
    let e4 = match parse_while(input, pos) {
        Ok(v) => {
            return Ok(v);
        }
        Err(e) => e,
    };
    let e5 = match parse_if_else(input, pos) {
        Ok(v) => {
            return Ok(v);
        }
        Err(e) => e,
    };
    let e6 = match parse_if(input, pos) {
        Ok(v) => {
            return Ok(v);
        }
        Err(e) => e,
    };
    let e7 = match parse_index_assignment(input, pos) {
        Ok(v) => {
            return Ok(v);
        }
        Err(e) => e,
    };
    let e8 = match parse_assignment(input, pos) {
        Ok(v) => {
            return Ok(v);
        }
        Err(e) => e,
    };
    let e9 = match parse_initialization(input, pos) {
        Ok(v) => {
            return Ok(v);
        }
        Err(e) => e,
    };
    let e10 = match parse_block(input, pos) {
        Ok(v) => {
            return Ok(v);
        }
        Err(e) => e,
    };
    let e11 = match parse_simple(input, pos) {
        Ok(v) => {
            return Ok(v);
        }
        Err(e) => e,
    };
    Err(deeper(
        deeper(
            deeper(
                deeper(deeper(deeper(deeper(deeper(deeper(deeper(e1, e2), e3), e4), e5), e6), e7),
                e8),
                e9,
            ),
            e10,
        ),
        e11,
    ))
}

/// Recognizes one statement at `pos`, trying the alternatives in their
/// fixed priority order and taking an optional trailing `;`.
#[verifier::rlimit(100)]
#[verifier::spinoff_prover]
pub fn statement(input: &Vec<u8>, pos: usize) -> (r: Result<(Statement, usize), SplashParseError>)
    requires
        pos <= input@.len(),
    ensures
        match r {
            Ok((st, p)) => spec_statement(input@, pos as int) == ParseOutcome::Parsed(
                st@,
                p as int,
            ) && pos < p <= input@.len(),
            Err(e) => spec_statement(input@, pos as int) == ParseOutcome::<StmtModel>::Failed(e@),
        },
    decreases input@.len() - pos, 80int,
{
    proof {
        reveal_with_fuel(spec_statement, 1);
    }
    match statement_alternatives(input, pos) {
        Err(e) => Err(e),
        Ok((st, p)) => {
            if p < input.len() && input[p] == ';' as u8 {
                Ok((st, p + 1))
            } else {
                Ok((st, p))
            }
        }
    }
}

} // verus!
