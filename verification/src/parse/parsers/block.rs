use vstd::prelude::*;

use crate::parse::combinators::trim::trivia_len;
use crate::parse::error::{ge_clamp, rem, ErrorKind, ParseErrorModel, ParseOutcome, SplashParseError};
use crate::parse::parsers::statement::{
    lemma_stmt_models_index, spec_statement, statement, stmt_models, Statement, StmtModel,
};

verus! {

/// A curly-brace-delimited ordered sequence of statements; one lexical scope.
pub struct Block(pub Vec<Statement>);

/// Mathematical model of a block: the sequence of its statements' models.
pub open spec fn block_model(b: Block) -> Seq<StmtModel>
    decreases b,
{
    stmt_models(b.0@)
}

impl View for Block {
    type V = Seq<StmtModel>;

    open spec fn view(&self) -> Seq<StmtModel> {
        block_model(*self)
    }
}

impl Block {
    /// The statements of this block, in order.
    pub fn statements(&self) -> (r: &Vec<Statement>)
        ensures
            stmt_models(r@) == self@,
    {
        &self.0
    }

    /// An identical deep copy of this block.
    pub fn duplicate(&self) -> (r: Block)
        ensures
            r@ == self@,
        decreases *self,
    {
        let s = &self.0;
        let mut t: Vec<Statement> = Vec::new();
        let mut i: usize = 0;
        while i < s.len()
            invariant
                i <= s@.len(),
                t@.len() == i,
                stmt_models(t@) =~= stmt_models(s@.take(i as int)),
            decreases s@.len() - i,
        {
            let ghost t0 = t@;
            let c = s[i].duplicate();
            t.push(c);
            proof {
                assert(t@.drop_last() =~= t0);
                assert(s@.take(i + 1).drop_last() =~= s@.take(i as int));
                assert(s@.take(i + 1).last() == s@[i as int]);
            }
            i = i + 1;
        }
        proof {
            assert(s@.take(s@.len() as int) =~= s@);
        }
        Block(t)
    }
}

/// Zero or more trimmed statements, collected while they parse and consume
/// input; stops, with the trivia before the first non-statement skipped,
/// where no further statement begins.
pub open spec fn spec_statements(input: Seq<u8>, pos: int) -> (Seq<StmtModel>, int)
    decreases rem(input, pos), 90int,
{
    let t = pos + trivia_len(input, pos);
    match spec_statement(input, t) {
        ParseOutcome::Failed(_) => (seq![], t),
        ParseOutcome::Parsed(s, p) => if 0 <= pos < p <= input.len() {
            let (rest, p2) = spec_statements(input, p);
            (seq![s] + rest, p2)
        } else {
            (seq![s], ge_clamp(p, t))
        },
    }
}

/// Grammar rule for a block: `{`, zero or more trimmed statements, `}`.
pub open spec fn spec_block(input: Seq<u8>, pos: int) -> ParseOutcome<Seq<StmtModel>>
    decreases rem(input, pos), 70int,
{
    if 0 <= pos < input.len() && input[pos] == '{' as u8 {
        let (stmts, p) = spec_statements(input, pos + 1);
        let q = ge_clamp(p, pos + 1);
        if 0 <= q < input.len() && input[q] == '}' as u8 {
            ParseOutcome::Parsed(stmts, q + 1)
        } else {
            ParseOutcome::Failed(ParseErrorModel::Nom(q, ErrorKind::Char))
        }
    } else {
        ParseOutcome::Failed(ParseErrorModel::Nom(pos, ErrorKind::Char))
    }
}

/// When no statement begins after the trivia at `i`, the statement run ends
/// there.
proof fn lemma_statements_stop(input: Seq<u8>, i: int)
    requires
        spec_statement(input, i + trivia_len(input, i)) is Failed,
    ensures
        spec_statements(input, i) == (Seq::<StmtModel>::empty(), i + trivia_len(input, i)),
{
    reveal_with_fuel(spec_statements, 1);
}

/// One more statement extends the run by one.
proof fn lemma_statements_step(input: Seq<u8>, i: int, sm: StmtModel, p: int)
    requires
        spec_statement(input, i + trivia_len(input, i)) == ParseOutcome::Parsed(sm, p),
        0 <= i < p <= input.len(),
    ensures
        spec_statements(input, i) == ({
            let (rest, p2) = spec_statements(input, p);
            (seq![sm] + rest, p2)
        }),
{
    reveal_with_fuel(spec_statements, 1);
}

/// Recognizes zero or more trimmed statements from `pos` on, returning them
/// with the offset just past them and the trivia that follows them.
pub fn statements(input: &Vec<u8>, pos: usize) -> (r: (Vec<Statement>, usize))
    requires
        pos <= input@.len(),
    ensures
        spec_statements(input@, pos as int) == (stmt_models(r.0@), r.1 as int),
        pos <= r.1 <= input@.len(),
    decreases input@.len() - pos, 90int,
{
    proof {
        reveal_with_fuel(spec_statements, 1);
    }
    let mut out: Vec<Statement> = Vec::new();
    let mut i: usize = pos;
    loop
        invariant
            pos <= i <= input@.len(),
            ({
                let (rest, p2) = spec_statements(input@, i as int);
                spec_statements(input@, pos as int) == (stmt_models(out@) + rest, p2)
            }),
        decreases input@.len() - i,
    {
        let ghost i0 = i as int;
        let ghost models0 = stmt_models(out@);
        let t = crate::parse::combinators::trim::trim(input, i);
        match statement(input, t) {
            Err(_) => {
                proof {
                    lemma_statements_stop(input@, i0);
                    assert(stmt_models(out@) + Seq::<StmtModel>::empty() =~= stmt_models(out@));
                }
                return (out, t);
            }
            Ok((s, p)) => {
                let ghost sm = s@;
                let ghost o0 = out@;
                out.push(s);
                proof {
                    lemma_statements_step(input@, i0, sm, p as int);
                    let (rest2, p3) = spec_statements(input@, p as int);
                    assert(out@.drop_last() =~= o0);
                    assert(stmt_models(out@) =~= models0.push(sm));
                    assert(models0.push(sm) + rest2 =~= models0 + (seq![sm] + rest2));
                }
                i = p;
            }
        }
    }
}

/// Recognizes a block at `pos`: `{`, zero or more trimmed statements, `}`.
pub fn block(input: &Vec<u8>, pos: usize) -> (r: Result<(Block, usize), SplashParseError>)
    requires
        pos <= input@.len(),
    ensures
        match r {
            Ok((b, p)) => spec_block(input@, pos as int) == ParseOutcome::Parsed(b@, p as int)
                && pos < p <= input@.len(),
            Err(e) => spec_block(input@, pos as int) == ParseOutcome::<Seq<StmtModel>>::Failed(e@),
        },
    decreases input@.len() - pos, 70int,
{
    proof {
        reveal_with_fuel(spec_block, 1);
    }
    if !(pos < input.len() && input[pos] == '{' as u8) {
        return Err(SplashParseError::Nom(pos, ErrorKind::Char));
    }
    let (stmts, p) = statements(input, pos + 1);
    proof {
        assert(ge_clamp(p as int, pos + 1) == p as int);
    }
    if p < input.len() && input[p] == '}' as u8 {
        Ok((Block(stmts), p + 1))
    } else {
        Err(SplashParseError::Nom(p, ErrorKind::Char))
    }
}

} // verus!
