use vstd::prelude::*;

verus! {

/// One row of the `industry` table.
#[derive(Clone, Debug, PartialEq, Eq)]
pub struct Model {
    pub id: i32,
    pub name: String,
}

/// The tables that an industry row is related to.
#[derive(Clone, Copy, Debug, PartialEq, Eq)]
pub enum Relation {
    Donar,
}

} // verus!
