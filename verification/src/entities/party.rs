use vstd::prelude::*;

verus! {

/// One row of the `party` table.
#[derive(Clone, Debug, PartialEq, Eq)]
pub struct Model {
    pub id: i32,
    pub name: String,
}

/// The tables that a party row is related to.
#[derive(Clone, Copy, Debug, PartialEq, Eq)]
pub enum Relation {
    Branch,
}

} // verus!
