use vstd::prelude::*;

use crate::parse::combinators::trim::trivia_len;
use crate::parse::error::{
    deeper, ge_clamp, rem, spec_append, spec_deeper, ErrorKind, ParseErrorModel, ParseOutcome,
    SplashParseError,
};
use crate::parse::parsers::expression::{expr_models, ExprModel, Expression};
use crate::parse::parsers::operator::{spec_binary_operator, spec_priority, Operator};

verus! {

/// One term of an operator chain: either a nested operation (a unary
/// operation or a parenthesized sub-chain) or any non-operation expression.
pub enum Operand {
    Operation(Operation),
    Expression(Expression),
}

/// An operator applied to its operands: one for a unary operator, two for a
/// binary one.
pub struct Operation {
    pub operator: Operator,
    pub operands: Vec<Operand>,
}

/// Mathematical model of an operand.
pub enum OperandModel {
    Operation(OperationModel),
    Expression(ExprModel),
}

/// Mathematical model of an operation.
pub struct OperationModel {
    pub operator: Operator,
    pub operands: Seq<OperandModel>,
}

pub open spec fn operand_model(o: Operand) -> OperandModel
    decreases o,
{
    match o {
        Operand::Operation(op) => OperandModel::Operation(operation_model(op)),
        Operand::Expression(e) => OperandModel::Expression(e@),
    }
}

pub open spec fn operation_model(o: Operation) -> OperationModel
    decreases o,
{
    OperationModel { operator: o.operator, operands: operand_models(o.operands@) }
}

pub open spec fn operand_models(s: Seq<Operand>) -> Seq<OperandModel>
    decreases s,
{
    if s.len() == 0 {
        seq![]
    } else {
        operand_models(s.drop_last()).push(operand_model(s.last()))
    }
}

impl View for Operand {
    type V = OperandModel;

    open spec fn view(&self) -> OperandModel {
        operand_model(*self)
    }
}

impl View for Operation {
    type V = OperationModel;

    open spec fn view(&self) -> OperationModel {
        operation_model(*self)
    }
}

impl Operation {
    /// The operator of this operation.
    pub fn operator(&self) -> (r: &Operator)
        ensures
            *r == self@.operator,
    {
        &self.operator
    }

    /// The operands of this operation, in order.
    pub fn operands(&self) -> (r: &Vec<Operand>)
        ensures
            operand_models(r@) == self@.operands,
    {
        &self.operands
    }
}

/// Models of a sequence of chain links, each an operand followed by the
/// binary operator to its right.
pub open spec fn pair_models(s: Seq<(Operand, Operator)>) -> Seq<(OperandModel, Operator)>
    decreases s,
{
    if s.len() == 0 {
        seq![]
    } else {
        pair_models(s.drop_last()).push((operand_model(s.last().0), s.last().1))
    }
}

pub proof fn lemma_pair_models_len(s: Seq<(Operand, Operator)>)
    ensures
        pair_models(s).len() == s.len(),
    decreases s.len(),
{
    if s.len() > 0 {
        lemma_pair_models_len(s.drop_last());
    }
}

pub proof fn lemma_pair_models_index(s: Seq<(Operand, Operator)>, i: int)
    requires
        0 <= i < s.len(),
    ensures
        pair_models(s).len() == s.len(),
        pair_models(s)[i] == (operand_model(s[i].0), s[i].1),
    decreases s.len(),
{
    lemma_pair_models_len(s);
    if i < s.len() - 1 {
        lemma_pair_models_index(s.drop_last(), i);
    }
}

/// Resolves a flat operator chain into a tree with correct precedence.
///
/// `pairs` holds the chain's operands left of the final operand, each with
/// the operator to its right; `right` is the operand accumulated so far,
/// rightmost first. Working right to left: when the operator at hand binds
/// at most as tightly as the operator to its left, everything to its left is
/// resolved first and becomes its left child (so operators of equal priority
/// associate left-to-right); otherwise the pair at hand folds into the
/// accumulated right operand. An empty chain yields the accumulated operand,
/// which is then expected to already be an operation.
pub open spec fn spec_transform(pairs: Seq<(OperandModel, Operator)>, right: OperandModel)
    -> OperationModel
    decreases pairs.len(),
{
    if pairs.len() == 0 {
        match right {
            OperandModel::Operation(o) => o,
            OperandModel::Expression(_) => OperationModel {
                operator: Operator::Not,
                operands: seq![right],
            },
        }
    } else {
        let left = pairs.last().0;
        let op1 = pairs.last().1;
        if pairs.len() >= 2 {
            let op2 = pairs[pairs.len() - 2].1;
            if spec_priority(op1) <= spec_priority(op2) {
                OperationModel {
                    operator: op1,
                    operands: seq![
                        OperandModel::Operation(spec_transform(pairs.drop_last(), left)),
                        right,
                    ],
                }
            } else {
                spec_transform(
                    pairs.drop_last(),
                    OperandModel::Operation(
                        OperationModel { operator: op1, operands: seq![left, right] },
                    ),
                )
            }
        } else {
            OperationModel { operator: op1, operands: seq![left, right] }
        }
    }
}

/// Resolves a parsed operator chain into a precedence-correct tree; see
/// `spec_transform`. Consumes the chain links from the rightmost backward.
pub fn transform_multi_operation(pairs: &mut Vec<(Operand, Operator)>, right: Operand) -> (r:
    Operation)
    ensures
        r@ == spec_transform(pair_models(old(pairs)@), right@),
    decreases old(pairs)@.len(),
{
    let ghost rm = right@;
    let popped = pairs.pop();
    match popped {
        None => {
            proof {
                assert(old(pairs)@.len() == 0);
                assert(pair_models(old(pairs)@).len() == 0);
            }
            match right {
                Operand::Operation(o) => {
                    proof {
                        assert(rm == OperandModel::Operation(o@));
                    }
                    o
                }
                Operand::Expression(e) => {
                    let ghost em = e@;
                    let mut operands: Vec<Operand> = Vec::new();
                    operands.push(Operand::Expression(e));
                    proof {
                        assert(rm == OperandModel::Expression(em));
                        assert(operands@.drop_last() =~= Seq::<Operand>::empty());
                        assert(operand_models(operands@.drop_last()).len() == 0);
                        assert(operand_models(operands@) =~= seq![rm]);
                    }
                    Operation { operator: Operator::Not, operands }
                }
            }
        }
        Some((left, op1)) => {
            let ghost lm = left@;
            let ghost rest = pairs@;
            proof {
                assert(old(pairs)@.last() == (left, op1));
                assert(pair_models(old(pairs)@).last() == (lm, op1));
                assert(old(pairs)@.drop_last() =~= rest);
                assert(pair_models(old(pairs)@).drop_last() =~= pair_models(rest));
                lemma_pair_models_len(old(pairs)@);
                lemma_pair_models_len(rest);
            }
            if pairs.len() > 0 {
                proof {
                    lemma_pair_models_index(rest, rest.len() - 1);
                }
                let op2 = pairs[pairs.len() - 1].1;
                proof {
                    assert(pair_models(old(pairs)@)[old(pairs)@.len() - 2] == (operand_model(
                        rest.last().0,
                    ), op2)) by {
                        assert(pair_models(old(pairs)@).drop_last()[rest.len() - 1]
                            == pair_models(rest)[rest.len() - 1]);
                    }
                }
                if op1.priority() <= op2.priority() {
                    let inner = transform_multi_operation(pairs, left);
                    let ghost im = inner@;
                    let mut operands: Vec<Operand> = Vec::new();
                    operands.push(Operand::Operation(inner));
                    let ghost o1 = operands@;
                    operands.push(right);
                    proof {
                        assert(operands@.drop_last() =~= o1);
                        assert(o1.drop_last() =~= Seq::<Operand>::empty());
                        assert(operand_models(o1.drop_last()).len() == 0);
                        assert(operand_model(o1.last()) == OperandModel::Operation(im));
                        assert(operand_models(o1) =~= seq![OperandModel::Operation(im)]);
                        assert(operand_model(operands@.last()) == rm);
                        assert(operand_models(operands@) =~= seq![
                            OperandModel::Operation(im),
                            rm,
                        ]);
                    }
                    Operation { operator: op1, operands }
                } else {
                    let mut operands: Vec<Operand> = Vec::new();
                    operands.push(left);
                    let ghost o1 = operands@;
                    operands.push(right);
                    proof {
                        assert(operands@.drop_last() =~= o1);
                        assert(o1.drop_last() =~= Seq::<Operand>::empty());
                        assert(operand_models(o1.drop_last()).len() == 0);
                        assert(operand_model(o1.last()) == lm);
                        assert(operand_models(o1) =~= seq![lm]);
                        assert(operand_model(operands@.last()) == rm);
                        assert(operand_models(operands@) =~= seq![lm, rm]);
                    }
                    let combined = Operation { operator: op1, operands };
                    proof {
                        assert(combined@ == (OperationModel {
                            operator: op1,
                            operands: seq![lm, rm],
                        }));
                    }
                    transform_multi_operation(pairs, Operand::Operation(combined))
                }
            } else {
                let mut operands: Vec<Operand> = Vec::new();
                operands.push(left);
                let ghost o1 = operands@;
                operands.push(right);
                proof {
                    assert(operands@.drop_last() =~= o1);
                    assert(o1.drop_last() =~= Seq::<Operand>::empty());
                    assert(operand_models(o1.drop_last()).len() == 0);
                    assert(operand_model(o1.last()) == lm);
                    assert(operand_models(o1) =~= seq![lm]);
                    assert(operand_model(operands@.last()) == rm);
                    assert(operand_models(operands@) =~= seq![lm, rm]);
                    assert(pair_models(old(pairs)@).len() == 1);
                }
                Operation { operator: op1, operands }
            }
        }
    }
}

/// The expression an operand stands for.
pub open spec fn operand_to_expr(o: OperandModel) -> ExprModel
    decreases o,
{
    match o {
        OperandModel::Operation(op) => operation_to_expr(op),
        OperandModel::Expression(e) => e,
    }
}

/// The expression an operation stands for: the operator applied to the
/// expressions of its operands.
pub open spec fn operation_to_expr(o: OperationModel) -> ExprModel
    decreases o,
{
    ExprModel::Operation(o.operator, operands_to_exprs(o.operands))
}

pub open spec fn operands_to_exprs(s: Seq<OperandModel>) -> Seq<ExprModel>
    decreases s,
{
    if s.len() == 0 {
        seq![]
    } else {
        operands_to_exprs(s.drop_last()).push(operand_to_expr(s.last()))
    }
}

/// The expression an operand stands for, as a fresh tree.
pub fn operand_expression(o: &Operand) -> (r: Expression)
    ensures
        r@ == operand_to_expr(o@),
    decreases *o,
{
    match o {
        Operand::Operation(op) => operation_expression(op),
        Operand::Expression(e) => e.duplicate(),
    }
}

/// The expression an operation stands for, as a fresh tree.
pub fn operation_expression(o: &Operation) -> (r: Expression)
    ensures
        r@ == operation_to_expr(o@),
    decreases *o,
{
    let s = &o.operands;
    let mut t: Vec<Expression> = Vec::new();
    let mut i: usize = 0;
    while i < s.len()
        invariant
            i <= s@.len(),
            expr_models(t@) =~= operands_to_exprs(operand_models(s@.take(i as int))),
        decreases s@.len() - i,
    {
        let ghost t0 = t@;
        let c = operand_expression(&s[i]);
        t.push(c);
        proof {
            assert(t@.drop_last() =~= t0);
            assert(s@.take(i + 1).drop_last() =~= s@.take(i as int));
            assert(s@.take(i + 1).last() == s@[i as int]);
            let ghost m = operand_models(s@.take(i as int));
            let ghost m1 = operand_models(s@.take(i + 1));
            assert(m1 == m.push(operand_model(s@[i as int])));
            assert(m1.drop_last() =~= m);
            assert(m1.last() == operand_model(s@[i as int]));
            assert(operands_to_exprs(m1) == operands_to_exprs(m).push(operand_to_expr(
                operand_model(s@[i as int]),
            )));
        }
        i = i + 1;
    }
    proof {
        assert(s@.take(s@.len() as int) =~= s@);
    }
    Expression::Operation(o.operator, t)
}

/// Grammar rule for a unary operation: `!` followed by its one trimmed
/// operand, to which it applies right-associatively.
#[verifier::opaque]
pub open spec fn spec_unary_operation(input: Seq<u8>, pos: int) -> ParseOutcome<OperationModel>
    decreases rem(input, pos), 25int,
{
    if 0 <= pos < input.len() && input[pos] == '!' as u8 {
        match spec_operand(input, pos + 1 + trivia_len(input, pos + 1)) {
            ParseOutcome::Parsed(o, p) => ParseOutcome::Parsed(
                OperationModel { operator: Operator::Not, operands: seq![o] },
                p,
            ),
            ParseOutcome::Failed(e) => ParseOutcome::Failed(e),
        }
    } else {
        ParseOutcome::Failed(ParseErrorModel::Nom(pos, ErrorKind::Char))
    }
}

/// Grammar rule for a parenthesized sub-chain, which resets precedence
/// scoping like any grouping; a chain of a single operand is legal, so any
/// parenthesized expression is an operand.
#[verifier::opaque]
pub open spec fn spec_parens_chain(input: Seq<u8>, pos: int) -> ParseOutcome<OperandModel>
    decreases rem(input, pos), 20int,
{
    if 0 <= pos < input.len() && input[pos] == '(' as u8 {
        match spec_multi_chain(input, pos + 1 + trivia_len(input, pos + 1)) {
            ParseOutcome::Parsed(o, p) => {
                let q = ge_clamp(p, pos) + trivia_len(input, ge_clamp(p, pos));
                if 0 <= q < input.len() && input[q] == ')' as u8 {
                    ParseOutcome::Parsed(o, q + 1)
                } else {
                    ParseOutcome::Failed(ParseErrorModel::Nom(q, ErrorKind::Char))
                }
            }
            ParseOutcome::Failed(e) => ParseOutcome::Failed(e),
        }
    } else {
        ParseOutcome::Failed(ParseErrorModel::Nom(pos, ErrorKind::Char))
    }
}

/// Grammar rule for one operand: a trimmed unary operation or parenthesized
/// chain, or else any trimmed non-operation expression.
#[verifier::opaque]
pub open spec fn spec_operand(input: Seq<u8>, pos: int) -> ParseOutcome<OperandModel>
    decreases rem(input, pos), 30int,
{
    let t = pos + trivia_len(input, pos);
    match spec_unary_operation(input, t) {
        ParseOutcome::Parsed(o, p) => ParseOutcome::Parsed(
            OperandModel::Operation(o),
            ge_clamp(p, t) + trivia_len(input, ge_clamp(p, t)),
        ),
        ParseOutcome::Failed(e1) => match spec_parens_chain(input, t) {
            ParseOutcome::Parsed(o, p) => ParseOutcome::Parsed(
                o,
                ge_clamp(p, t) + trivia_len(input, ge_clamp(p, t)),
            ),
            ParseOutcome::Failed(e2) => match crate::parse::parsers::expression::spec_expression_no_operation(
                input,
                t,
            ) {
                ParseOutcome::Parsed(e, p) => ParseOutcome::Parsed(
                    OperandModel::Expression(e),
                    ge_clamp(p, t) + trivia_len(input, ge_clamp(p, t)),
                ),
                ParseOutcome::Failed(e3) => ParseOutcome::Failed(
                    spec_deeper(spec_deeper(e1, e2), e3),
                ),
            },
        },
    }
}

/// Further links of an operator chain: operands each followed by a binary
/// operator, collected while they parse and consume input.
#[verifier::opaque]
pub open spec fn spec_pairs_more(input: Seq<u8>, pos: int) -> (Seq<(OperandModel, Operator)>, int)
    decreases rem(input, pos), 38int,
{
    match spec_operand(input, pos) {
        ParseOutcome::Failed(_) => (seq![], pos),
        ParseOutcome::Parsed(o, p1) => match spec_binary_operator(input, ge_clamp(p1, pos)) {
            ParseOutcome::Failed(_) => (seq![], pos),
            ParseOutcome::Parsed(op, p2) => if 0 <= pos < p2 <= input.len() {
                let (rest, p3) = spec_pairs_more(input, p2);
                (seq![(o, op)] + rest, p3)
            } else {
                (seq![], pos)
            },
        },
    }
}

/// The links of an operator chain: at least one operand followed by a
/// binary operator; a failure of the first link fails the chain, with the
/// inner failure kept on a stack.
#[verifier::opaque]
pub open spec fn spec_pairs(input: Seq<u8>, pos: int) -> ParseOutcome<
    Seq<(OperandModel, Operator)>,
>
    decreases rem(input, pos), 40int,
{
    match spec_operand(input, pos) {
        ParseOutcome::Failed(e) => ParseOutcome::Failed(spec_append(pos, ErrorKind::Many, e)),
        ParseOutcome::Parsed(o, p1) => match spec_binary_operator(input, ge_clamp(p1, pos)) {
            ParseOutcome::Failed(e) => ParseOutcome::Failed(spec_append(pos, ErrorKind::Many, e)),
            ParseOutcome::Parsed(op, p2) => {
                let q = ge_clamp(p2, pos);
                let (rest, p3) = spec_pairs_more(input, q);
                ParseOutcome::Parsed(seq![(o, op)] + rest, p3)
            }
        },
    }
}

/// Grammar rule for an operator chain: a flat alternating sequence of at
/// least one operand with binary operators between them, resolved into a
/// precedence-correct tree; a chain of a single operand is that operand.
#[verifier::opaque]
pub open spec fn spec_multi_chain(input: Seq<u8>, pos: int) -> ParseOutcome<OperandModel>
    decreases rem(input, pos), 45int,
{
    match spec_pairs(input, pos) {
        ParseOutcome::Parsed(pairs, p) => match spec_operand(input, ge_clamp(p, pos)) {
            ParseOutcome::Parsed(right, p2) => ParseOutcome::Parsed(
                OperandModel::Operation(spec_transform(pairs, right)),
                p2,
            ),
            ParseOutcome::Failed(e) => ParseOutcome::Failed(e),
        },
        ParseOutcome::Failed(e1) => match spec_operand(input, pos) {
            ParseOutcome::Parsed(o, p) => ParseOutcome::Parsed(o, p),
            ParseOutcome::Failed(e2) => ParseOutcome::Failed(spec_deeper(e1, e2)),
        },
    }
}

/// Grammar rule for an operation expression: an operator chain that applies
/// at least one operator, or a lone nested operation such as a unary one.
#[verifier::opaque]
pub open spec fn spec_multi_operation(input: Seq<u8>, pos: int) -> ParseOutcome<OperationModel>
    decreases rem(input, pos), 46int,
{
    match spec_multi_chain(input, pos) {
        ParseOutcome::Parsed(OperandModel::Operation(o), p) => ParseOutcome::Parsed(o, p),
        ParseOutcome::Parsed(OperandModel::Expression(_), p) => ParseOutcome::Failed(
            ParseErrorModel::Nom(pos, ErrorKind::Tag),
        ),
        ParseOutcome::Failed(e) => ParseOutcome::Failed(e),
    }
}

/// Recognizes a unary operation at `pos`.
pub fn parse_unary_operation(input: &Vec<u8>, pos: usize) -> (r: Result<
    (Operation, usize),
    SplashParseError,
>)
    requires
        pos <= input@.len(),
    ensures
        match r {
            Ok((o, p)) => spec_unary_operation(input@, pos as int) == ParseOutcome::Parsed(
                o@,
                p as int,
            ) && pos < p <= input@.len(),
            Err(e) => spec_unary_operation(input@, pos as int) == ParseOutcome::<
                OperationModel,
            >::Failed(e@),
        },
    decreases input@.len() - pos, 25int,
{
    proof {
        reveal_with_fuel(spec_unary_operation, 1);
        reveal_with_fuel(spec_operand, 1);
    }
    if !(pos < input.len() && input[pos] == '!' as u8) {
        return Err(SplashParseError::Nom(pos, ErrorKind::Char));
    }
    let t = crate::parse::combinators::trim::trim(input, pos + 1);
    match parse_operand(input, t) {
        Ok((o, p)) => {
            let ghost om = o@;
            let mut operands: Vec<Operand> = Vec::new();
            operands.push(o);
            proof {
                assert(operands@.drop_last() =~= Seq::<Operand>::empty());
                assert(operand_models(operands@.drop_last()).len() == 0);
                assert(operand_models(operands@) =~= seq![om]);
            }
            Ok((Operation { operator: Operator::Not, operands }, p))
        }
        Err(e) => Err(e),
    }
}

/// Recognizes a parenthesized operator chain at `pos`.
pub fn parse_parens_chain(input: &Vec<u8>, pos: usize) -> (r: Result<
    (Operand, usize),
    SplashParseError,
>)
    requires
        pos <= input@.len(),
    ensures
        match r {
            Ok((o, p)) => spec_parens_chain(input@, pos as int) == ParseOutcome::Parsed(
                o@,
                p as int,
            ) && pos < p <= input@.len(),
            Err(e) => spec_parens_chain(input@, pos as int) == ParseOutcome::<
                OperandModel,
            >::Failed(e@),
        },
    decreases input@.len() - pos, 20int,
{
    proof {
        reveal_with_fuel(spec_parens_chain, 1);
        reveal_with_fuel(spec_multi_chain, 1);
    }
    if !(pos < input.len() && input[pos] == '(' as u8) {
        return Err(SplashParseError::Nom(pos, ErrorKind::Char));
    }
    let t = crate::parse::combinators::trim::trim(input, pos + 1);
    match parse_multi_chain(input, t) {
        Ok((o, p)) => {
            proof {
                assert(ge_clamp(p as int, pos as int) == p as int);
            }
            let q = crate::parse::combinators::trim::trim(input, p);
            if q < input.len() && input[q] == ')' as u8 {
                Ok((o, q + 1))
            } else {
                Err(SplashParseError::Nom(q, ErrorKind::Char))
            }
        }
        Err(e) => Err(e),
    }
}

/// Recognizes one operand at `pos`.
pub fn parse_operand(input: &Vec<u8>, pos: usize) -> (r: Result<(Operand, usize), SplashParseError>)
    requires
        pos <= input@.len(),
    ensures
        match r {
            Ok((o, p)) => spec_operand(input@, pos as int) == ParseOutcome::Parsed(o@, p as int)
                && pos < p <= input@.len(),
            Err(e) => spec_operand(input@, pos as int) == ParseOutcome::<OperandModel>::Failed(e@),
        },
    decreases input@.len() - pos, 30int,
{
    proof {
        reveal_with_fuel(spec_operand, 1);
        reveal_with_fuel(spec_unary_operation, 1);
        reveal_with_fuel(spec_parens_chain, 1);
        reveal_with_fuel(crate::parse::parsers::expression::spec_expression_no_operation, 1);
    }
    let t = crate::parse::combinators::trim::trim(input, pos);
    let e1 = match parse_unary_operation(input, t) {
        Ok((o, p)) => {
            proof {
                assert(ge_clamp(p as int, t as int) == p as int);
            }
            let p2 = crate::parse::combinators::trim::trim(input, p);
            return Ok((Operand::Operation(o), p2));
        }
        Err(e) => e,
    };
    let e2 = match parse_parens_chain(input, t) {
        Ok((o, p)) => {
            proof {
                assert(ge_clamp(p as int, t as int) == p as int);
            }
            let p2 = crate::parse::combinators::trim::trim(input, p);
            return Ok((o, p2));
        }
        Err(e) => e,
    };
    let e3 = match crate::parse::parsers::expression::expression_no_operation(input, t) {
        Ok((e, p)) => {
            proof {
                assert(ge_clamp(p as int, t as int) == p as int);
            }
            let p2 = crate::parse::combinators::trim::trim(input, p);
            return Ok((Operand::Expression(e), p2));
        }
        Err(e) => e,
    };
    Err(deeper(deeper(e1, e2), e3))
}

/// When no further link parses at `i`, the chain's further links end there.
proof fn lemma_pairs_more_stop(input: Seq<u8>, i: int)
    requires
        spec_operand(input, i) is Failed || (spec_operand(input, i) matches ParseOutcome::Parsed(
            _,
            p1,
        ) && (spec_binary_operator(input, ge_clamp(p1, i)) is Failed || (spec_binary_operator(
            input,
            ge_clamp(p1, i),
        ) matches ParseOutcome::Parsed(_, p2) && !(0 <= i < p2 <= input.len())))),
    ensures
        spec_pairs_more(input, i) == (Seq::<(OperandModel, Operator)>::empty(), i),
{
    reveal_with_fuel(spec_pairs_more, 1);
    reveal_with_fuel(spec_operand, 1);
}

/// One further link extends the chain's further links by one.
proof fn lemma_pairs_more_step(
    input: Seq<u8>,
    i: int,
    om: OperandModel,
    p1: int,
    op: Operator,
    p2: int,
)
    requires
        spec_operand(input, i) == ParseOutcome::Parsed(om, p1),
        i <= p1,
        spec_binary_operator(input, p1) == ParseOutcome::Parsed(op, p2),
        0 <= i < p2 <= input.len(),
    ensures
        spec_pairs_more(input, i) == ({
            let (rest, p3) = spec_pairs_more(input, p2);
            (seq![(om, op)] + rest, p3)
        }),
{
    reveal_with_fuel(spec_pairs_more, 1);
    reveal_with_fuel(spec_operand, 1);
    assert(ge_clamp(p1, i) == p1);
}

/// Recognizes the links of an operator chain at `pos`: at least one operand
/// followed by a binary operator, then as many more as parse.
#[verifier::rlimit(100)]
#[verifier::spinoff_prover]
pub fn parse_pairs(input: &Vec<u8>, pos: usize) -> (r: Result<
    (Vec<(Operand, Operator)>, usize),
    SplashParseError,
>)
    requires
        pos <= input@.len(),
    ensures
        match r {
            Ok((pairs, p)) => spec_pairs(input@, pos as int) == ParseOutcome::Parsed(
                pair_models(pairs@),
                p as int,
            ) && pos < p <= input@.len(),
            Err(e) => spec_pairs(input@, pos as int) == ParseOutcome::<
                Seq<(OperandModel, Operator)>,
            >::Failed(e@),
        },
    decreases input@.len() - pos, 40int,
{
    proof {
        reveal_with_fuel(spec_pairs, 1);
        reveal_with_fuel(spec_pairs_more, 1);
        reveal_with_fuel(spec_operand, 1);
    }
    let (first, p1) = match parse_operand(input, pos) {
        Ok(v) => v,
        Err(e) => {
            return Err(SplashParseError::append(pos, ErrorKind::Many, e));
        }
    };
    proof {
        assert(ge_clamp(p1 as int, pos as int) == p1 as int);
    }
    let (op1, p2) = match crate::parse::parsers::operator::binary_operator(input, p1) {
        Ok(v) => v,
        Err(e) => {
            return Err(SplashParseError::append(pos, ErrorKind::Many, e));
        }
    };
    proof {
        assert(ge_clamp(p2 as int, pos as int) == p2 as int);
    }
    let ghost fm = first@;
    let mut pairs: Vec<(Operand, Operator)> = Vec::new();
    pairs.push((first, op1));
    proof {
        assert(pairs@.drop_last() =~= Seq::<(Operand, Operator)>::empty());
        assert(pair_models(pairs@.drop_last()).len() == 0);
        assert(pair_models(pairs@) =~= seq![(fm, op1)]);
    }
    let mut i: usize = p2;
    loop
        invariant
            pos < i <= input@.len(),
            ({
                let (rest, p3) = spec_pairs_more(input@, i as int);
                spec_pairs(input@, pos as int) == ParseOutcome::<
                    Seq<(OperandModel, Operator)>,
                >::Parsed(pair_models(pairs@) + rest, p3)
            }),
        decreases input@.len() - i,
    {
        let ghost i0 = i as int;
        let ghost links0 = pair_models(pairs@);
        match parse_operand(input, i) {
            Ok((o, q1)) => {
                match crate::parse::parsers::operator::binary_operator(input, q1) {
                    Ok((op, q2)) => {
                        let ghost om = o@;
                        let ghost ps0 = pairs@;
                        pairs.push((o, op));
                        proof {
                            lemma_pairs_more_step(input@, i0, om, q1 as int, op, q2 as int);
                            let (rest2, p4) = spec_pairs_more(input@, q2 as int);
                            assert(pairs@.drop_last() =~= ps0);
                            assert(operand_model(pairs@.last().0) == om);
                            assert(pair_models(pairs@) =~= links0.push((om, op)));
                            assert(links0.push((om, op)) + rest2 =~= links0 + (seq![(om, op)]
                                + rest2));
                        }
                        i = q2;
                    }
                    Err(_) => {
                        proof {
                            assert(ge_clamp(q1 as int, i0) == q1 as int);
                            lemma_pairs_more_stop(input@, i0);
                            assert(pair_models(pairs@) + Seq::<(OperandModel, Operator)>::empty()
                                =~= pair_models(pairs@));
                        }
                        return Ok((pairs, i));
                    }
                }
            }
            Err(_) => {
                proof {
                    lemma_pairs_more_stop(input@, i0);
                    assert(pair_models(pairs@) + Seq::<(OperandModel, Operator)>::empty()
                        =~= pair_models(pairs@));
                }
                return Ok((pairs, i));
            }
        }
    }
}

/// Recognizes an operator chain at `pos`: links followed by a final
/// operand, resolved into a precedence-correct tree; a chain of a single
/// operand is that operand.
pub fn parse_multi_chain(input: &Vec<u8>, pos: usize) -> (r: Result<
    (Operand, usize),
    SplashParseError,
>)
    requires
        pos <= input@.len(),
    ensures
        match r {
            Ok((o, p)) => spec_multi_chain(input@, pos as int) == ParseOutcome::Parsed(
                o@,
                p as int,
            ) && pos < p <= input@.len(),
            Err(e) => spec_multi_chain(input@, pos as int) == ParseOutcome::<
                OperandModel,
            >::Failed(e@),
        },
    decreases input@.len() - pos, 45int,
{
    proof {
        reveal_with_fuel(spec_multi_chain, 1);
        reveal_with_fuel(spec_pairs, 1);
        reveal_with_fuel(spec_operand, 1);
    }
    let e1 = match parse_pairs(input, pos) {
        Ok((mut pairs, p)) => {
            proof {
                assert(ge_clamp(p as int, pos as int) == p as int);
            }
            match parse_operand(input, p) {
                Ok((right, p2)) => {
                    let o = transform_multi_operation(&mut pairs, right);
                    return Ok((Operand::Operation(o), p2));
                }
                Err(e) => {
                    return Err(e);
                }
            }
        }
        Err(e) => e,
    };
    match parse_operand(input, pos) {
        Ok((o, p)) => Ok((o, p)),
        Err(e2) => Err(deeper(e1, e2)),
    }
}

/// Recognizes an operation expression at `pos`: a chain that applies at
/// least one operator, or a lone nested operation.
pub fn parse_multi_operation(input: &Vec<u8>, pos: usize) -> (r: Result<
    (Operation, usize),
    SplashParseError,
>)
    requires
        pos <= input@.len(),
    ensures
        match r {
            Ok((o, p)) => spec_multi_operation(input@, pos as int) == ParseOutcome::Parsed(
                o@,
                p as int,
            ) && pos < p <= input@.len(),
            Err(e) => spec_multi_operation(input@, pos as int) == ParseOutcome::<
                OperationModel,
            >::Failed(e@),
        },
    decreases input@.len() - pos, 46int,
{
    proof {
        reveal_with_fuel(spec_multi_operation, 1);
        reveal_with_fuel(spec_multi_chain, 1);
    }
    match parse_multi_chain(input, pos) {
        Ok((Operand::Operation(o), p)) => Ok((o, p)),
        Ok((Operand::Expression(_), _)) => Err(SplashParseError::Nom(pos, ErrorKind::Tag)),
        Err(e) => Err(e),
    }
}

/// Recognizes an operation expression at `pos`; the entry point for them.
pub fn operation(input: &Vec<u8>, pos: usize) -> (r: Result<(Operation, usize), SplashParseError>)
    requires
        pos <= input@.len(),
    ensures
        match r {
            Ok((o, p)) => spec_multi_operation(input@, pos as int) == ParseOutcome::Parsed(
                o@,
                p as int,
            ) && pos < p <= input@.len(),
            Err(e) => spec_multi_operation(input@, pos as int) == ParseOutcome::<
                OperationModel,
            >::Failed(e@),
        },
    decreases input@.len() - pos, 47int,
{
    proof {
        reveal_with_fuel(spec_multi_operation, 1);
        reveal_with_fuel(spec_multi_chain, 1);
    }
    parse_multi_operation(input, pos)
}

/// Law: in a chain `a + b * c` the multiplication nests beneath the
/// addition, as the right child of `+`.
pub proof fn lemma_precedence_times_under_plus(a: OperandModel, b: OperandModel, c: OperandModel)
    ensures
        spec_transform(seq![(a, Operator::Plus), (b, Operator::Times)], c) == (OperationModel {
            operator: Operator::Plus,
            operands: seq![
                a,
                OperandModel::Operation(
                    OperationModel { operator: Operator::Times, operands: seq![b, c] },
                ),
            ],
        }),
{
    let pairs = seq![(a, Operator::Plus), (b, Operator::Times)];
    assert(pairs.last() == (b, Operator::Times));
    assert(pairs[pairs.len() - 2].1 == Operator::Plus);
    let folded = OperandModel::Operation(
        OperationModel { operator: Operator::Times, operands: seq![b, c] },
    );
    assert(pairs.drop_last() =~= seq![(a, Operator::Plus)]);
    assert(spec_transform(pairs, c) == spec_transform(seq![(a, Operator::Plus)], folded));
    assert(spec_transform(seq![(a, Operator::Plus)], folded) == (OperationModel {
        operator: Operator::Plus,
        operands: seq![a, folded],
    }));
}

/// Law: in a chain `a * b + c * d` both multiplications are leaves under a
/// single `+` at the root.
pub proof fn lemma_precedence_times_plus_times(
    a: OperandModel,
    b: OperandModel,
    c: OperandModel,
    d: OperandModel,
)
    ensures
        spec_transform(seq![(a, Operator::Times), (b, Operator::Plus), (c, Operator::Times)], d)
            == (OperationModel {
            operator: Operator::Plus,
            operands: seq![
                OperandModel::Operation(
                    OperationModel { operator: Operator::Times, operands: seq![a, b] },
                ),
                OperandModel::Operation(
                    OperationModel { operator: Operator::Times, operands: seq![c, d] },
                ),
            ],
        }),
{
    let pairs = seq![(a, Operator::Times), (b, Operator::Plus), (c, Operator::Times)];
    let cd = OperandModel::Operation(
        OperationModel { operator: Operator::Times, operands: seq![c, d] },
    );
    let ab = OperandModel::Operation(
        OperationModel { operator: Operator::Times, operands: seq![a, b] },
    );
    assert(pairs.last() == (c, Operator::Times));
    assert(pairs[pairs.len() - 2].1 == Operator::Plus);
    let pairs2 = pairs.drop_last();
    assert(pairs2 =~= seq![(a, Operator::Times), (b, Operator::Plus)]);
    assert(spec_transform(pairs, d) == spec_transform(pairs2, cd));
    assert(pairs2.last() == (b, Operator::Plus));
    assert(pairs2[pairs2.len() - 2].1 == Operator::Times);
    let pairs3 = pairs2.drop_last();
    assert(pairs3 =~= seq![(a, Operator::Times)]);
    assert(spec_transform(pairs2, cd) == (OperationModel {
        operator: Operator::Plus,
        operands: seq![OperandModel::Operation(spec_transform(pairs3, b)), cd],
    }));
    assert(spec_transform(pairs3, b) == (OperationModel {
        operator: Operator::Times,
        operands: seq![a, b],
    }));
}

/// Law: operators of equal priority associate left-to-right, so `a - b - c`
/// resolves as `(a - b) - c`.
pub proof fn lemma_equal_priority_left_associative(
    a: OperandModel,
    b: OperandModel,
    c: OperandModel,
)
    ensures
        spec_transform(seq![(a, Operator::Minus), (b, Operator::Minus)], c) == (OperationModel {
            operator: Operator::Minus,
            operands: seq![
                OperandModel::Operation(
                    OperationModel { operator: Operator::Minus, operands: seq![a, b] },
                ),
                c,
            ],
        }),
{
    let pairs = seq![(a, Operator::Minus), (b, Operator::Minus)];
    assert(pairs.last() == (b, Operator::Minus));
    assert(pairs[pairs.len() - 2].1 == Operator::Minus);
    let pairs2 = pairs.drop_last();
    assert(pairs2 =~= seq![(a, Operator::Minus)]);
    assert(spec_transform(pairs, c) == (OperationModel {
        operator: Operator::Minus,
        operands: seq![OperandModel::Operation(spec_transform(pairs2, b)), c],
    }));
    assert(spec_transform(pairs2, b) == (OperationModel {
        operator: Operator::Minus,
        operands: seq![a, b],
    }));
}

} // verus!
