//! The lines that a run writes, and their text.

use vstd::prelude::*;
use vstd::string::StringExecFns;
use crate::sequence::fib;
use crate::sequence::fits;
use crate::text::decimal;
use crate::text::push_decimal;

verus! {

/// What a line says.
#[derive(Clone, Copy, Debug, PartialEq, Eq)]
pub enum Value {
    /// A term of the sequence, exactly.
    Exact(u128),
    /// The term at the index given is beyond 128 bits. The line shows what
    /// the closed form (phi^n - (-phi)^(-n)) / sqrt(5) gives for that index,
    /// in exponential notation.
    Approximate(usize),
    /// The token is no index.
    NotANumber,
}

/// One line of output.
#[derive(Clone, Debug, PartialEq, Eq)]
pub struct Line {
    /// What stands in front of the value, where anything does: the index
    /// of a term, or the token that is no index.
    pub label: Option<String>,
    /// What the line says.
    pub value: Value,
}

/// A line, its label as a sequence of characters.
pub struct LineView {
    pub label: Option<Seq<char>>,
    pub value: Value,
}

impl View for Line {
    type V = LineView;

    open spec fn view(&self) -> LineView {
        LineView {
            label: match self.label {
                Some(label) => Some(label@),
                None => None,
            },
            value: self.value,
        }
    }
}

impl LineView {
    /// What the line begins with: the label, a colon and a space, or
    /// nothing.
    pub open spec fn lead(self) -> Seq<char> {
        match self.label {
            Some(label) => label + seq![':', ' '],
            None => Seq::empty(),
        }
    }

    /// The whole line, but for an approximation: that text is the
    /// beginning of the line and a number that only floating point gives.
    pub open spec fn text(self) -> Option<Seq<char>> {
        match self.value {
            Value::Exact(term) => Some(self.lead() + decimal(term as nat)),
            Value::Approximate(_) => None,
            Value::NotANumber => Some(self.lead() + seq!['N', 'a', 'N']),
        }
    }
}

/// The value of the line for index `i`: the term itself as long as it fits
/// in 128 bits, an approximation from there on.
pub open spec fn value_at(i: nat) -> Value {
    if fits(i) {
        Value::Exact(fib(i) as u128)
    } else {
        Value::Approximate(i as usize)
    }
}

/// The line for index `i`, which carries the index where `labelled` is set.
pub open spec fn line_at(i: nat, labelled: bool) -> LineView {
    LineView {
        label: if labelled {
            Some(decimal(i))
        } else {
            None
        },
        value: value_at(i),
    }
}

/// The line for a token that is no index, which carries the token where
/// `labelled` is set.
pub open spec fn not_a_number(token: Seq<char>, labelled: bool) -> LineView {
    LineView {
        label: if labelled {
            Some(token)
        } else {
            None
        },
        value: Value::NotANumber,
    }
}

impl Line {
    /// What the line begins with.
    pub fn lead(&self) -> (text: String)
        ensures
            text@ == self@.lead(),
    {
        match &self.label {
            Some(label) => {
                let mut text = label.clone();
                proof {
                    reveal_strlit(": ");
                }
                text.append(": ");
                assert(text@ =~= self@.lead());
                text
            },
            None => String::new(),
        }
    }

    /// The whole line, where it holds no approximation.
    pub fn text(&self) -> (text: Option<String>)
        ensures
            match text {
                Some(text) => self@.text() == Some(text@),
                None => self@.text() is None,
            },
    {
        match self.value {
            Value::Exact(term) => {
                let mut text = self.lead();
                push_decimal(&mut text, term);
                Some(text)
            },
            Value::Approximate(_) => None,
            Value::NotANumber => {
                let mut text = self.lead();
                proof {
                    reveal_strlit("NaN");
                }
                text.append("NaN");
                assert(text@ =~= self@.lead() + seq!['N', 'a', 'N']);
                Some(text)
            },
        }
    }
}

} // verus!
