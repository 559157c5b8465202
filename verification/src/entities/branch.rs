use vstd::prelude::*;

verus! {

/// One row of the `branch` table: a branch of a party, such as a state
/// division, that receives donations.
#[derive(Clone, Debug, PartialEq, Eq)]
pub struct Model {
    pub id: i32,
    pub name: String,
    pub party_id: i32,
}

/// The tables that a branch row is related to.
#[derive(Clone, Copy, Debug, PartialEq, Eq)]
pub enum Relation {
    Donation,
    Party,
}

} // verus!
