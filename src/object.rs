//! Runtime values.
use vstd::prelude::*;
use crate::decimal::{decimal, int_to_string};

verus! {

/// A value produced by evaluation.
#[derive(Debug, Clone, Copy, PartialEq, Eq)]
pub enum Object {
    Int(i64),
}

impl Object {
    /// The display text of the value: an integer in decimal.
    pub fn inspect(&self) -> (r: String)
        ensures
            r@ == match *self {
                Object::Int(i) => decimal(i as int),
            },
    {
        match self {
            Object::Int(i) => int_to_string(*i),
        }
    }
}

} // verus!
