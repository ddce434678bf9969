//! The scalar values that a resource holds as state.

use vstd::prelude::*;
use crate::number::{has_fraction, is_number, Float};

verus! {

/// A state attribute's value.
#[derive(Debug, PartialEq, Eq)]
pub enum StateValue {
    Text(String),
    /// A 64-bit integer.
    Int(i64),
    /// A 64-bit float.
    Float(Float),
    Bool(bool),
    Null,
}

/// The mathematical value of a `StateValue`.
pub enum ValueView {
    Text(Seq<char>),
    Int(int),
    /// The numeral of a finite float, or nothing for one that is not finite.
    Float(Option<Seq<char>>),
    Bool(bool),
    Null,
}

impl ValueView {
    /// What holds of every state value: the numeral of a float is a JSON
    /// number with a fraction part.
    pub open spec fn wf(self) -> bool {
        self matches ValueView::Float(Some(numeral)) ==> is_number(numeral) && has_fraction(
            numeral,
        )
    }
}

impl View for StateValue {
    type V = ValueView;

    open spec fn view(&self) -> ValueView {
        match self {
            StateValue::Text(s) => ValueView::Text(s@),
            StateValue::Int(n) => ValueView::Int(*n as int),
            StateValue::Float(f) => ValueView::Float(f@),
            StateValue::Bool(b) => ValueView::Bool(*b),
            StateValue::Null => ValueView::Null,
        }
    }
}

/// Shows that a state value is well-formed; does nothing when run.
pub(crate) fn note_well_formed(value: &StateValue)
    ensures
        value@.wf(),
{
    match value {
        StateValue::Float(Float::Finite(numeral)) => {
            proof {
                use_type_invariant(numeral);
                numeral.lemma_well_formed();
            }
        },
        _ => {},
    }
}

impl Clone for StateValue {
    fn clone(&self) -> (r: Self)
        ensures
            r@ == self@,
    {
        match self {
            StateValue::Text(s) => StateValue::Text(s.clone()),
            StateValue::Int(n) => StateValue::Int(*n),
            StateValue::Float(f) => StateValue::Float(f.clone()),
            StateValue::Bool(b) => StateValue::Bool(*b),
            StateValue::Null => StateValue::Null,
        }
    }
}

} // verus!
