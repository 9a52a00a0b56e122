use vstd::prelude::*;

use crate::parse::parsers::literal::{Literal, LiteralModel};
use crate::utils::copy_bytes;

verus! {

/// A runtime value: a 64-bit signed integer, a boolean, a byte string, or a
/// list of values. Values are tree-shaped and always passed by deep copy.
pub enum Value {
    Number(i64),
    Boolean(bool),
    String(Vec<u8>),
    List(Vec<Value>),
}

/// Mathematical model of a runtime value: numbers as unbounded integers,
/// text as byte sequences, lists as sequences of models.
pub enum ValueModel {
    Number(int),
    Boolean(bool),
    String(Seq<u8>),
    List(Seq<ValueModel>),
}

pub open spec fn value_model(v: Value) -> ValueModel
    decreases v,
{
    match v {
        Value::Number(n) => ValueModel::Number(n as int),
        Value::Boolean(b) => ValueModel::Boolean(b),
        Value::String(s) => ValueModel::String(s@),
        Value::List(l) => ValueModel::List(value_models(l@)),
    }
}

pub open spec fn value_models(l: Seq<Value>) -> Seq<ValueModel>
    decreases l,
{
    if l.len() == 0 {
        seq![]
    } else {
        value_models(l.drop_last()).push(value_model(l.last()))
    }
}

impl View for Value {
    type V = ValueModel;

    open spec fn view(&self) -> ValueModel {
        value_model(*self)
    }
}

pub proof fn lemma_value_models_len(l: Seq<Value>)
    ensures
        value_models(l).len() == l.len(),
    decreases l.len(),
{
    if l.len() > 0 {
        lemma_value_models_len(l.drop_last());
    }
}

/// The model of a sequence of values is the sequence of their models.
pub proof fn lemma_value_models_index(l: Seq<Value>, i: int)
    requires
        0 <= i < l.len(),
    ensures
        value_models(l).len() == l.len(),
        value_models(l)[i] == value_model(l[i]),
    decreases l.len(),
{
    lemma_value_models_len(l);
    if i < l.len() - 1 {
        lemma_value_models_index(l.drop_last(), i);
    }
}

impl Value {
    /// An identical deep copy of this value.
    pub fn duplicate(&self) -> (r: Value)
        ensures
            r@ == self@,
        decreases *self,
    {
        match self {
            Value::Number(n) => Value::Number(*n),
            Value::Boolean(b) => Value::Boolean(*b),
            Value::String(s) => Value::String(copy_bytes(s)),
            Value::List(l) => {
                let mut t: Vec<Value> = Vec::new();
                let mut i: usize = 0;
                while i < l.len()
                    invariant
                        i <= l@.len(),
                        value_models(t@) =~= value_models(l@.take(i as int)),
                    decreases l@.len() - i,
                {
                    let ghost t0 = t@;
                    let c = l[i].duplicate();
                    t.push(c);
                    proof {
                        assert(t@.drop_last() =~= t0);
                        assert(l@.take(i + 1).drop_last() =~= l@.take(i as int));
                        assert(l@.take(i + 1).last() == l@[i as int]);
                    }
                    i = i + 1;
                }
                proof {
                    assert(l@.take(l@.len() as int) =~= l@);
                }
                Value::List(t)
            }
        }
    }
}

/// An identical deep copy of a vector of values.
pub fn duplicate_values(s: &Vec<Value>) -> (r: Vec<Value>)
    ensures
        value_models(r@) == value_models(s@),
        r@.len() == s@.len(),
{
    let mut t: Vec<Value> = Vec::new();
    let mut i: usize = 0;
    while i < s.len()
        invariant
            i <= s@.len(),
            t@.len() == i,
            value_models(t@) =~= value_models(s@.take(i as int)),
        decreases s@.len() - i,
    {
        let ghost t0 = t@;
        let c = s[i].duplicate();
        t.push(c);
        proof {
            assert(t@.drop_last() =~= t0);
            assert(s@.take(i + 1).drop_last() =~= s@.take(i as int));
            assert(s@.take(i + 1).last() == s@[i as int]);
        }
        i = i + 1;
    }
    proof {
        assert(s@.take(s@.len() as int) =~= s@);
    }
    t
}

/// Updating one element of a value vector updates its model pointwise.
pub proof fn lemma_value_models_update(s: Seq<Value>, k: int, vm: ValueModel, s2: Seq<Value>)
    requires
        0 <= k < s.len(),
        s2.len() == s.len(),
        forall|j: int| 0 <= j < s.len() && j != k ==> s2[j] == s[j],
        value_model(s2[k]) == vm,
    ensures
        value_models(s2) == value_models(s).update(k, vm),
{
    lemma_value_models_len(s);
    lemma_value_models_len(s2);
    assert forall|j: int| 0 <= j < s.len() implies value_models(s2)[j] == value_models(s).update(
        k,
        vm,
    )[j] by {
        lemma_value_models_index(s2, j);
        lemma_value_models_index(s, j);
    }
    assert(value_models(s2) =~= value_models(s).update(k, vm));
}

/// The value a literal evaluates to.
pub open spec fn literal_value(l: LiteralModel) -> ValueModel {
    match l {
        LiteralModel::Number(n) => ValueModel::Number(n),
        LiteralModel::Boolean(b) => ValueModel::Boolean(b),
        LiteralModel::String(s) => ValueModel::String(s),
    }
}

impl From<Literal> for Value {
    /// The runtime value of a parsed literal.
    fn from(value: Literal) -> (r: Self) {
        match value {
            Literal::Number(n) => Value::Number(n),
            Literal::Boolean(b) => Value::Boolean(b),
            Literal::String(s) => Value::String(s),
        }
    }
}

impl vstd::std_specs::convert::FromSpecImpl<Literal> for Value {
    open spec fn obeys_from_spec() -> bool {
        true
    }

    open spec fn from_spec(l: Literal) -> Value {
        match l {
            Literal::Number(n) => Value::Number(n),
            Literal::Boolean(b) => Value::Boolean(b),
            Literal::String(s) => Value::String(s),
        }
    }
}

/// The decimal digits of `n`, most significant first; empty when `n <= 0`.
pub open spec fn nat_digits(n: int) -> Seq<u8>
    decreases n,
{
    if n <= 0 {
        seq![]
    } else {
        nat_digits(n / 10).push((48 + n % 10) as u8)
    }
}

/// The display form of an integer: its decimal digits, preceded by `-` when
/// negative.
pub open spec fn int_display(n: int) -> Seq<u8> {
    if n == 0 {
        seq![48u8]
    } else if n < 0 {
        seq!['-' as u8] + nat_digits(-n)
    } else {
        nat_digits(n)
    }
}

/// The display form of a boolean: `true` or `false`.
pub open spec fn bool_display(b: bool) -> Seq<u8> {
    if b {
        seq!['t' as u8, 'r' as u8, 'u' as u8, 'e' as u8]
    } else {
        seq!['f' as u8, 'a' as u8, 'l' as u8, 's' as u8, 'e' as u8]
    }
}

/// The display form of a value: numbers in decimal, booleans as words,
/// strings as their bytes, and lists as `[a, b, c]`.
pub open spec fn value_display(v: ValueModel) -> Seq<u8>
    decreases v,
{
    match v {
        ValueModel::Number(n) => int_display(n),
        ValueModel::Boolean(b) => bool_display(b),
        ValueModel::String(s) => s,
        ValueModel::List(l) => seq!['[' as u8] + list_display(l) + seq![']' as u8],
    }
}

/// The display forms of list elements, joined by `, `.
pub open spec fn list_display(l: Seq<ValueModel>) -> Seq<u8>
    decreases l,
{
    if l.len() == 0 {
        seq![]
    } else if l.len() == 1 {
        value_display(l[0])
    } else {
        value_display(l[0]) + seq![',' as u8, ' ' as u8] + list_display(l.drop_first())
    }
}

/// Joining one more element onto a non-empty join extends it on the right.
pub proof fn lemma_list_display_push(l: Seq<ValueModel>, v: ValueModel)
    ensures
        list_display(l.push(v)) == if l.len() == 0 {
            value_display(v)
        } else {
            list_display(l) + seq![',' as u8, ' ' as u8] + value_display(v)
        },
    decreases l.len(),
{
    let lp = l.push(v);
    if l.len() == 0 {
        assert(lp.len() == 1);
        assert(lp[0] == v);
    } else {
        assert(lp.len() >= 2);
        assert(lp[0] == l[0]);
        assert(lp.drop_first() =~= l.drop_first().push(v));
        lemma_list_display_push(l.drop_first(), v);
        if l.len() == 1 {
            assert(list_display(l) == value_display(l[0]));
            assert(list_display(lp) =~= list_display(l) + seq![',' as u8, ' ' as u8]
                + value_display(v));
        } else {
            assert(list_display(lp) =~= list_display(l) + seq![',' as u8, ' ' as u8]
                + value_display(v));
        }
    }
}

/// The decimal digits of a positive magnitude, written by repeated division.
fn push_digits(m0: u64, out: &mut Vec<u8>)
    ensures
        final(out)@ == old(out)@ + nat_digits(m0 as int),
{
    if m0 == 0 {
        proof {
            assert(out@ =~= out@ + nat_digits(0));
        }
        return ;
    }
    let mut m: u64 = m0;
    let mut tmp: Vec<u8> = Vec::new();
    while m > 0
        invariant
            nat_digits(m0 as int) =~= nat_digits(m as int) + tmp@.reverse(),
        decreases m,
    {
        let d: u8 = (m % 10) as u8 + 48;
        let ghost tmp0 = tmp@;
        tmp.push(d);
        m = m / 10;
        proof {
            assert(tmp@.reverse() =~= seq![d] + tmp0.reverse());
            assert(nat_digits(m0 as int) =~= nat_digits(m as int) + tmp@.reverse());
        }
    }
    let ghost digits = nat_digits(m0 as int);
    proof {
        assert(digits =~= tmp@.reverse());
    }
    let mut i: usize = tmp.len();
    while i > 0
        invariant
            i <= tmp@.len(),
            out@ == old(out)@ + digits.take(digits.len() - i),
            digits =~= tmp@.reverse(),
        decreases i,
    {
        i = i - 1;
        out.push(tmp[i]);
        proof {
            assert(digits[digits.len() - i - 1] == tmp@[i as int]);
            assert(digits.take(digits.len() - i) =~= digits.take(digits.len() - i - 1).push(
                tmp@[i as int],
            ));
        }
    }
    proof {
        assert(digits.take(digits.len() as int) =~= digits);
    }
}

/// The display form of a 64-bit integer, as fresh bytes.
pub fn i64_display(n: i64) -> (r: Vec<u8>)
    ensures
        r@ == int_display(n as int),
{
    let mut out: Vec<u8> = Vec::new();
    if n == 0 {
        out.push(48);
        proof {
            assert(out@ =~= int_display(0));
        }
        return out;
    }
    if n < 0 {
        out.push('-' as u8);
        let m: u64 = ((-(n + 1)) as u64) + 1;
        proof {
            assert(m as int == -(n as int));
        }
        let ghost out0 = out@;
        push_digits(m, &mut out);
        proof {
            assert(out0 =~= seq!['-' as u8]);
            assert(out@ =~= int_display(n as int));
        }
        out
    } else {
        push_digits(n as u64, &mut out);
        proof {
            assert(out@ =~= int_display(n as int));
        }
        out
    }
}

/// The display form of a value, as fresh bytes.
pub fn display_value(v: &Value) -> (r: Vec<u8>)
    ensures
        r@ == value_display(v@),
    decreases *v,
{
    match v {
        Value::Number(n) => i64_display(*n),
        Value::Boolean(b) => {
            let mut out: Vec<u8> = Vec::new();
            if *b {
                out.push('t' as u8);
                out.push('r' as u8);
                out.push('u' as u8);
                out.push('e' as u8);
            } else {
                out.push('f' as u8);
                out.push('a' as u8);
                out.push('l' as u8);
                out.push('s' as u8);
                out.push('e' as u8);
            }
            proof {
                assert(out@ =~= bool_display(*b));
            }
            out
        }
        Value::String(s) => copy_bytes(s),
        Value::List(l) => {
            let mut out: Vec<u8> = Vec::new();
            out.push('[' as u8);
            let mut i: usize = 0;
            while i < l.len()
                invariant
                    i <= l@.len(),
                    out@ =~= seq!['[' as u8] + list_display(value_models(l@.take(i as int))),
                decreases l@.len() - i,
            {
                if i > 0 {
                    out.push(',' as u8);
                    out.push(' ' as u8);
                }
                let mut piece = display_value(&l[i]);
                let ghost out_mid = out@;
                let mut j: usize = 0;
                while j < piece.len()
                    invariant
                        j <= piece@.len(),
                        out@ =~= out_mid + piece@.take(j as int),
                    decreases piece@.len() - j,
                {
                    out.push(piece[j]);
                    proof {
                        assert(out@ =~= out_mid + piece@.take(j + 1));
                    }
                    j = j + 1;
                }
                proof {
                    assert(piece@.take(piece@.len() as int) =~= piece@);
                    lemma_value_models_len(l@.take(i as int));
                    assert(l@.take(i + 1).drop_last() =~= l@.take(i as int));
                    assert(l@.take(i + 1).last() == l@[i as int]);
                    assert(value_models(l@.take(i + 1)) == value_models(l@.take(i as int)).push(
                        value_model(l@[i as int]),
                    ));
                    lemma_list_display_push(value_models(l@.take(i as int)), value_model(
                        l@[i as int],
                    ));
                    assert(out@ =~= seq!['[' as u8] + list_display(value_models(l@.take(i + 1))));
                }
                i = i + 1;
            }
            out.push(']' as u8);
            proof {
                assert(l@.take(l@.len() as int) =~= l@);
                assert(out@ =~= value_display(v@));
            }
            out
        }
    }
}

} // verus!
