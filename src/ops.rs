use vstd::prelude::*;

use crate::text::{spells1, spells3};

verus! {

/// The operators of the expression language.
///
/// `Unimplemented` stands for a word that names no operator.
#[derive(Clone, Copy, Debug, PartialEq, Eq, Structural)]
pub enum Operators {
    Add,
    Subtract,
    Multiply,
    Divide,
    Modulo,
    Exponent,
    Factorial,
    NRoot,
    Logarithm,
    Unimplemented,
}

/// The operator that the word `t` names.
pub open spec fn operator_of(t: Seq<char>) -> Operators {
    if t == seq!['+'] {
        Operators::Add
    } else if t == seq!['-'] {
        Operators::Subtract
    } else if t == seq!['*'] {
        Operators::Multiply
    } else if t == seq!['/'] {
        Operators::Divide
    } else if t == seq!['%'] {
        Operators::Modulo
    } else if t == seq!['^'] {
        Operators::Exponent
    } else if t == seq!['!'] {
        Operators::Factorial
    } else if t == seq!['n', 'r', 't'] {
        Operators::NRoot
    } else if t == seq!['l', 'o', 'g'] {
        Operators::Logarithm
    } else {
        Operators::Unimplemented
    }
}

impl Operators {
    /// Looks up the operator named by `token`.
    pub fn from_token(token: &str) -> (r: Operators)
        ensures
            r == operator_of(token@),
    {
        if spells1(token, '+') {
            Operators::Add
        } else if spells1(token, '-') {
            Operators::Subtract
        } else if spells1(token, '*') {
            Operators::Multiply
        } else if spells1(token, '/') {
            Operators::Divide
        } else if spells1(token, '%') {
            Operators::Modulo
        } else if spells1(token, '^') {
            Operators::Exponent
        } else if spells1(token, '!') {
            Operators::Factorial
        } else if spells3(token, 'n', 'r', 't') {
            Operators::NRoot
        } else if spells3(token, 'l', 'o', 'g') {
            Operators::Logarithm
        } else {
            Operators::Unimplemented
        }
    }
}

impl<'a> From<&'a str> for Operators {
    fn from(token: &'a str) -> Operators {
        Operators::from_token(token)
    }
}

impl<'a> vstd::std_specs::convert::FromSpecImpl<&'a str> for Operators {
    open spec fn obeys_from_spec() -> bool {
        true
    }

    open spec fn from_spec(token: &'a str) -> Operators {
        operator_of(token@)
    }
}

} // verus!
