//! The expression tree of a `calc()` value: a sum of leaves.

use vstd::prelude::*;

verus! {

/// An expression over leaves of type `V`. A node owns its children; adding
/// and scaling make new trees and change none.
#[derive(Debug, PartialEq, Eq)]
pub enum Calc<V> {
    /// A single leaf.
    Value(Box<V>),
    /// The sum of two expressions.
    Sum(Box<Calc<V>>, Box<Calc<V>>),
}

impl<V> Calc<V> {
    /// The sum of two trees: a node with both as its children, in order.
    pub open spec fn add_spec(self, other: Calc<V>) -> Calc<V> {
        Calc::Sum(Box::new(self), Box::new(other))
    }

    /// The sum of two trees: a node with both as its children, in order.
    pub fn add(self, other: Calc<V>) -> (r: Calc<V>)
        ensures
            r == self.add_spec(other),
    {
        Calc::Sum(Box::new(self), Box::new(other))
    }
}

} // verus!
