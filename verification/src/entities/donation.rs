use vstd::prelude::*;

verus! {

/// One row of the `donation` table: an amount given by a donor to a party
/// branch in a financial year.
#[derive(Clone, Debug, PartialEq, Eq)]
pub struct Model {
    pub id: i32,
    pub year: String,
    pub amount: i64,
    pub branch_id: i32,
    pub donar_id: i32,
}

/// The tables that a donation row refers to.
#[derive(Clone, Copy, Debug, PartialEq, Eq)]
pub enum Relation {
    Branch,
    Donar,
}

} // verus!
