use vstd::prelude::*;

use crate::ops::{operator_of, Operators};
use crate::text::spells1;

verus! {

broadcast use vstd::std_specs::vec::group_vec_axioms;

/// A classified token.
///
/// `Group` holds the classified contents of a parenthesised
/// sub-expression, which evaluates to a single number.
#[derive(Debug, PartialEq)]
pub enum Item {
    Number(String),
    Operator(Operators),
    Group(Vec<Item>),
}

/// The mathematical value of an `Item`.
pub enum Term {
    Number(Seq<char>),
    Operator(Operators),
    Group(Seq<Term>),
}

/// Why a token list could not be classified.
///
/// Each variant carries the position of the offending token in the list
/// handed to `parse`.
#[derive(Clone, Copy, Debug, PartialEq, Eq, Structural)]
pub enum ParseError {
    /// The token is neither a number, an operator, nor an opening parenthesis.
    Malformed(usize),
    /// The opening parenthesis is never closed.
    Unbalanced(usize),
}

pub open spec fn term_of(i: Item) -> Term
    decreases i,
{
    match i {
        Item::Number(s) => Term::Number(s@),
        Item::Operator(o) => Term::Operator(o),
        Item::Group(v) => Term::Group(terms_of(v@)),
    }
}

pub open spec fn terms_of(s: Seq<Item>) -> Seq<Term>
    decreases s,
{
    if s.len() == 0 {
        Seq::empty()
    } else {
        terms_of(s.subrange(0, s.len() - 1)).push(term_of(s[s.len() - 1]))
    }
}

/// The text of each token.
pub open spec fn texts(tokens: Seq<String>) -> Seq<Seq<char>> {
    tokens.map_values(|t: String| t@)
}

pub open spec fn is_open(t: Seq<char>) -> bool {
    t == seq!['(']
}

pub open spec fn is_close(t: Seq<char>) -> bool {
    t == seq![')']
}

/// The position, at or after `i` and before `hi`, of the parenthesis that
/// brings the nesting `depth` to zero; `hi` where there is none.
pub open spec fn closing(toks: Seq<Seq<char>>, i: int, hi: int, depth: int) -> int
    decreases hi - i,
{
    if i >= hi {
        hi
    } else if is_open(toks[i]) {
        closing(toks, i + 1, hi, depth + 1)
    } else if is_close(toks[i]) {
        if depth <= 1 {
            i
        } else {
            closing(toks, i + 1, hi, depth - 1)
        }
    } else {
        closing(toks, i + 1, hi, depth)
    }
}

/// `front` followed by the terms of `r`, or the error of `r`.
pub open spec fn prefixed(front: Seq<Term>, r: Result<Seq<Term>, ParseError>) -> Result<
    Seq<Term>,
    ParseError,
> {
    match r {
        Ok(s) => Ok(front + s),
        Err(e) => Err(e),
    }
}

/// Classification of the tokens in positions `lo .. hi`, where `numeric[i]`
/// tells whether token `i` reads as a number.
pub open spec fn classify(toks: Seq<Seq<char>>, numeric: Seq<bool>, lo: int, hi: int) -> Result<
    Seq<Term>,
    ParseError,
>
    decreases hi - lo,
{
    if lo >= hi {
        Ok(Seq::empty())
    } else if numeric[lo] {
        prefixed(seq![Term::Number(toks[lo])], classify(toks, numeric, lo + 1, hi))
    } else if is_open(toks[lo]) {
        let c = closing(toks, lo + 1, hi, 1);
        if lo < c < hi {
            match classify(toks, numeric, lo + 1, c) {
                Ok(inner) => prefixed(seq![Term::Group(inner)], classify(toks, numeric, c + 1, hi)),
                Err(e) => Err(e),
            }
        } else {
            Err(ParseError::Unbalanced(lo as usize))
        }
    } else if operator_of(toks[lo]) == Operators::Unimplemented {
        Err(ParseError::Malformed(lo as usize))
    } else {
        prefixed(seq![Term::Operator(operator_of(toks[lo]))], classify(toks, numeric, lo + 1, hi))
    }
}

pub open spec fn result_terms(r: Result<Vec<Item>, ParseError>) -> Result<Seq<Term>, ParseError> {
    match r {
        Ok(v) => Ok(terms_of(v@)),
        Err(e) => Err(e),
    }
}

proof fn lemma_terms_push(s: Seq<Item>, i: Item)
    ensures
        terms_of(s.push(i)) == terms_of(s).push(term_of(i)),
{
    assert(s.push(i).subrange(0, s.len() as int) =~= s);
}

/// Moving one classified item from the pending rest onto the output.
proof fn lemma_step(out: Seq<Item>, item: Item, r: Result<Seq<Term>, ParseError>)
    ensures
        prefixed(terms_of(out), prefixed(seq![term_of(item)], r)) == prefixed(
            terms_of(out.push(item)),
            r,
        ),
{
    lemma_terms_push(out, item);
    if let Ok(s) = r {
        assert(terms_of(out) + (seq![term_of(item)] + s) =~= terms_of(out).push(term_of(item)) + s);
    }
}

proof fn lemma_prefixed_empty(r: Result<Seq<Term>, ParseError>)
    ensures
        prefixed(Seq::empty(), r) == r,
{
    if let Ok(s) = r {
        assert(Seq::<Term>::empty() + s =~= s);
    }
}

/// The closing position is either `hi` or a closing parenthesis at or
/// after `i`.
proof fn lemma_closing_bounds(toks: Seq<Seq<char>>, i: int, hi: int, depth: int)
    ensures
        ({
            let c = closing(toks, i, hi, depth);
            ||| c == hi
            ||| i <= c < hi && is_close(toks[c])
        }),
    decreases hi - i,
{
    if i < hi {
        if is_open(toks[i]) {
            lemma_closing_bounds(toks, i + 1, hi, depth + 1);
        } else if is_close(toks[i]) {
            if depth > 1 {
                lemma_closing_bounds(toks, i + 1, hi, depth - 1);
            }
        } else {
            lemma_closing_bounds(toks, i + 1, hi, depth);
        }
    }
}

proof fn lemma_unrecognized_in_span(
    toks: Seq<Seq<char>>,
    numeric: Seq<bool>,
    lo: int,
    hi: int,
    k: int,
)
    requires
        numeric.len() == toks.len(),
        0 <= lo <= k < hi <= toks.len(),
        !numeric[k],
        !is_open(toks[k]),
        !is_close(toks[k]),
        operator_of(toks[k]) == Operators::Unimplemented,
    ensures
        classify(toks, numeric, lo, hi) is Err,
    decreases hi - lo,
{
    if lo < k {
        if numeric[lo] {
            lemma_unrecognized_in_span(toks, numeric, lo + 1, hi, k);
        } else if is_open(toks[lo]) {
            let c = closing(toks, lo + 1, hi, 1);
            lemma_closing_bounds(toks, lo + 1, hi, 1);
            if lo < c < hi {
                if k < c {
                    lemma_unrecognized_in_span(toks, numeric, lo + 1, c, k);
                } else {
                    lemma_unrecognized_in_span(toks, numeric, c + 1, hi, k);
                }
            }
        } else if operator_of(toks[lo]) != Operators::Unimplemented {
            lemma_unrecognized_in_span(toks, numeric, lo + 1, hi, k);
        }
    }
}

/// A token list that holds a token which is neither a number, a
/// parenthesis, nor an operator is rejected as a whole: no part of it is
/// classified.
pub proof fn lemma_unrecognized_rejected(toks: Seq<Seq<char>>, numeric: Seq<bool>, k: int)
    requires
        numeric.len() == toks.len(),
        0 <= k < toks.len(),
        !numeric[k],
        !is_open(toks[k]),
        !is_close(toks[k]),
        operator_of(toks[k]) == Operators::Unimplemented,
    ensures
        classify(toks, numeric, 0, toks.len() as int) is Err,
{
    lemma_unrecognized_in_span(toks, numeric, 0, toks.len() as int, k);
}

/// Finds the parenthesis that closes the one just before `start`.
fn find_closing(tokens: &[String], start: usize, hi: usize) -> (c: usize)
    requires
        1 <= start <= hi <= tokens@.len(),
    ensures
        start <= c <= hi,
        c == closing(texts(tokens@), start as int, hi as int, 1),
{
    let ghost toks = texts(tokens@);
    let mut i: usize = start;
    let mut depth: usize = 1;
    while i < hi
        invariant
            1 <= start <= i <= hi <= tokens@.len(),
            toks == texts(tokens@),
            1 <= depth <= i - start + 1,
            closing(toks, start as int, hi as int, 1) == closing(toks, i as int, hi as int, depth as int),
        decreases hi - i,
    {
        let t = tokens[i].as_str();
        if spells1(t, '(') {
            depth = depth + 1;
        } else if spells1(t, ')') {
            if depth <= 1 {
                return i;
            }
            depth = depth - 1;
        }
        i = i + 1;
    }
    hi
}

/// Classifies the tokens in positions `lo .. hi`.
fn parse_span(tokens: &[String], numeric: &[bool], lo: usize, hi: usize) -> (r: Result<
    Vec<Item>,
    ParseError,
>)
    requires
        lo <= hi <= tokens@.len(),
        numeric@.len() == tokens@.len(),
    ensures
        result_terms(r) == classify(texts(tokens@), numeric@, lo as int, hi as int),
    decreases hi - lo,
{
    let ghost toks = texts(tokens@);
    let ghost whole = classify(toks, numeric@, lo as int, hi as int);
    let mut out: Vec<Item> = Vec::new();
    let mut i: usize = lo;
    proof {
        lemma_prefixed_empty(whole);
    }
    while i < hi
        invariant
            lo <= i <= hi <= tokens@.len(),
            numeric@.len() == tokens@.len(),
            toks == texts(tokens@),
            whole == classify(toks, numeric@, lo as int, hi as int),
            whole == prefixed(terms_of(out@), classify(toks, numeric@, i as int, hi as int)),
        decreases hi - i,
    {
        let t = tokens[i].as_str();
        assert(toks[i as int] == t@);
        if numeric[i] {
            let item = Item::Number(tokens[i].clone());
            proof {
                lemma_step(out@, item, classify(toks, numeric@, i + 1, hi as int));
            }
            out.push(item);
            i = i + 1;
        } else if spells1(t, '(') {
            let c = find_closing(tokens, i + 1, hi);
            if c >= hi {
                return Err(ParseError::Unbalanced(i));
            }
            let inner = parse_span(tokens, numeric, i + 1, c);
            match inner {
                Ok(v) => {
                    let item = Item::Group(v);
                    proof {
                        lemma_step(out@, item, classify(toks, numeric@, c + 1, hi as int));
                    }
                    out.push(item);
                    i = c + 1;
                },
                Err(e) => {
                    return Err(e);
                },
            }
        } else {
            let op = Operators::from_token(t);
            if op == Operators::Unimplemented {
                return Err(ParseError::Malformed(i));
            }
            let item = Item::Operator(op);
            proof {
                lemma_step(out@, item, classify(toks, numeric@, i + 1, hi as int));
            }
            out.push(item);
            i = i + 1;
        }
    }
    Ok(out)
}

/// Classifies a token list into numbers, operators and parenthesised
/// groups, strictly in order. `numeric[i]` tells whether `tokens[i]` reads
/// as a number; a token that does is a number whatever else it spells.
///
/// A group spans the tokens strictly between an opening parenthesis and
/// the parenthesis that closes it, and is classified on its own. The first
/// token that fails, in reading order, gives the error.
pub fn parse(tokens: &[String], numeric: &[bool]) -> (r: Result<Vec<Item>, ParseError>)
    requires
        numeric@.len() == tokens@.len(),
    ensures
        result_terms(r) == classify(texts(tokens@), numeric@, 0, tokens@.len() as int),
{
    parse_span(tokens, numeric, 0, tokens.len())
}

} // verus!
