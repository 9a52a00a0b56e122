use vstd::prelude::*;

use crate::parse::error::error_pos;

verus! {

/// An identical copy of a byte vector.
pub fn copy_bytes(s: &Vec<u8>) -> (r: Vec<u8>)
    ensures
        r@ == s@,
{
    let mut t: Vec<u8> = Vec::new();
    let mut i: usize = 0;
    while i < s.len()
        invariant
            i <= s@.len(),
            t@ =~= s@.take(i as int),
        decreases s@.len() - i,
    {
        t.push(s[i]);
        proof {
            assert(t@ =~= s@.take(i + 1));
        }
        i = i + 1;
    }
    proof {
        assert(s@.take(s@.len() as int) =~= s@);
    }
    t
}

/// The bytes of a string, character by character; meaningful for ASCII text.
pub fn str_bytes(s: &str) -> (r: Vec<u8>)
    ensures
        r@ == s@.map_values(|c: char| c as u8),
{
    let mut r: Vec<u8> = Vec::new();
    let n = s.unicode_len();
    let mut i: usize = 0;
    while i < n
        invariant
            i <= n,
            n == s@.len(),
            r@ == s@.take(i as int).map_values(|c: char| c as u8),
        decreases n - i,
    {
        let c = s.get_char(i);
        proof {
            assert(s@.take(i + 1).drop_last() =~= s@.take(i as int));
            assert(s@.take(i + 1).map_values(|c: char| c as u8).drop_last() =~= s@.take(
                i as int,
            ).map_values(|c: char| c as u8));
        }
        r.push(c as u8);
        i = i + 1;
    }
    proof {
        assert(s@.take(n as int) =~= s@);
    }
    r
}

/// The models of a sequence of byte vectors.
pub open spec fn bytes_models(s: Seq<Vec<u8>>) -> Seq<Seq<u8>>
    decreases s,
{
    if s.len() == 0 {
        seq![]
    } else {
        bytes_models(s.drop_last()).push(s.last()@)
    }
}

pub proof fn lemma_bytes_models_len(s: Seq<Vec<u8>>)
    ensures
        bytes_models(s).len() == s.len(),
    decreases s.len(),
{
    if s.len() > 0 {
        lemma_bytes_models_len(s.drop_last());
    }
}

pub proof fn lemma_bytes_models_index(s: Seq<Vec<u8>>, i: int)
    requires
        0 <= i < s.len(),
    ensures
        bytes_models(s).len() == s.len(),
        bytes_models(s)[i] == s[i]@,
    decreases s.len(),
{
    lemma_bytes_models_len(s);
    if i < s.len() - 1 {
        lemma_bytes_models_index(s.drop_last(), i);
    }
}

/// An identical copy of a sequence of byte vectors.
pub fn copy_names(s: &Vec<Vec<u8>>) -> (r: Vec<Vec<u8>>)
    ensures
        bytes_models(r@) == bytes_models(s@),
        r@.len() == s@.len(),
{
    let mut t: Vec<Vec<u8>> = Vec::new();
    let mut i: usize = 0;
    while i < s.len()
        invariant
            i <= s@.len(),
            t@.len() == i,
            bytes_models(t@) =~= bytes_models(s@.take(i as int)),
        decreases s@.len() - i,
    {
        let ghost t0 = t@;
        t.push(copy_bytes(&s[i]));
        proof {
            assert(t@.drop_last() =~= t0);
            assert(s@.take(i + 1).drop_last() =~= s@.take(i as int));
            assert(s@.take(i + 1).last() == s@[i as int]);
        }
        i = i + 1;
    }
    proof {
        assert(s@.take(s@.len() as int) =~= s@);
    }
    t
}

/// Whether two byte vectors hold the same bytes.
pub fn bytes_eq(a: &Vec<u8>, b: &Vec<u8>) -> (r: bool)
    ensures
        r == (a@ == b@),
{
    if a.len() != b.len() {
        proof {
            assert(a@ != b@);
        }
        return false;
    }
    let mut i: usize = 0;
    while i < a.len()
        invariant
            i <= a@.len(),
            a@.len() == b@.len(),
            forall|j: int| 0 <= j < i ==> a@[j] == b@[j],
        decreases a@.len() - i,
    {
        if a[i] != b[i] {
            proof {
                assert(a@ != b@);
            }
            return false;
        }
        i = i + 1;
    }
    proof {
        assert(a@ =~= b@);
    }
    true
}

/// How many newlines a consumed prefix holds.
pub open spec fn newline_count(s: Seq<u8>) -> nat
    decreases s,
{
    if s.len() == 0 {
        0
    } else if s.last() == '\n' as u8 {
        (newline_count(s.drop_last()) + 1) as nat
    } else {
        newline_count(s.drop_last())
    }
}

/// The length of the last line of a consumed prefix: the bytes after its
/// last newline, and none when it ends with one.
pub open spec fn last_line_len(s: Seq<u8>) -> nat
    decreases s,
{
    if s.len() == 0 {
        0
    } else if s.last() == '\n' as u8 {
        0
    } else {
        (last_line_len(s.drop_last()) + 1) as nat
    }
}

/// Maps a primitive parse failure back to a 1-based line and column pair by
/// counting newlines in the prefix consumed before the failure. The input
/// must be the brace-wrapped source the failure came from, so the injected
/// opening brace is left out of the count; a failure without a usable byte
/// offset has no position.
pub fn locate_error(input: &Vec<u8>, error: &crate::parse::error::SplashParseError) -> (r: Option<
    (usize, usize),
>)
    ensures
        match r {
            Some((line, column)) => {
                &&& error@ matches crate::parse::error::ParseErrorModel::Nom(p, _)
                &&& input@.len() >= 1
                &&& input@[0] == '{' as u8
                &&& 1 <= error_pos(error@) <= input@.len()
                &&& line == newline_count(input@.subrange(1, error_pos(error@))) + 1
                &&& column == last_line_len(input@.subrange(1, error_pos(error@))) + 1
            },
            None => !(error@ matches crate::parse::error::ParseErrorModel::Nom(p, _) && 1 <= p
                <= input@.len() && input@.len() >= 1 && input@[0] == '{' as u8),
        },
{
    let p: usize = match error {
        crate::parse::error::SplashParseError::Nom(p, _) => *p,
        _ => {
            return None;
        }
    };
    if !(input.len() >= 1 && input[0] == '{' as u8 && 1 <= p && p <= input.len()) {
        return None;
    }
    let ghost consumed = input@.subrange(1, p as int);
    let mut line: usize = 0;
    let mut column: usize = 0;
    let mut i: usize = 1;
    proof {
        assert(input@.subrange(1, 1) =~= Seq::<u8>::empty());
    }
    while i < p
        invariant
            1 <= i <= p <= input@.len(),
            line == newline_count(input@.subrange(1, i as int)),
            column == last_line_len(input@.subrange(1, i as int)),
            line < i,
            column < i,
        decreases p - i,
    {
        proof {
            assert(input@.subrange(1, i + 1).drop_last() =~= input@.subrange(1, i as int));
            assert(input@.subrange(1, i + 1).last() == input@[i as int]);
        }
        if input[i] == '\n' as u8 {
            line = line + 1;
            column = 0;
        } else {
            column = column + 1;
        }
        i = i + 1;
    }
    Some((line + 1, column + 1))
}

} // verus!
