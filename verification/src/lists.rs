//! A recursive list type, owned through boxes.

use vstd::prelude::*;

verus! {

/// A singly linked list of integers.
pub enum List {
    Node(i32, Box<List>),
    Nil,
}

impl List {
    /// The value at the head of the list, if any.
    pub open spec fn head(self) -> Option<i32> {
        match self {
            List::Node(v, _) => Some(v),
            List::Nil => None,
        }
    }

    /// How many nodes the list has.
    pub open spec fn length(self) -> nat
        decreases self,
    {
        match self {
            List::Node(_, rest) => 1 + rest.length(),
            List::Nil => 0,
        }
    }
}

/// Build the two-node list `1, 2` and read the value at its head.
pub fn example_recursive() -> (r: Option<i32>)
    ensures
        r == Some(1i32),
{
    let list = List::Node(1, Box::new(List::Node(2, Box::new(List::Nil))));
    match list {
        List::Node(v, _) => Some(v),
        List::Nil => None,
    }
}

} // verus!
