use vstd::prelude::*;

verus! {

/// One row of the `donar` table: a donor, with the industry it belongs to
/// when that is known.
#[derive(Clone, Debug, PartialEq, Eq)]
pub struct Model {
    pub id: i32,
    pub name: String,
    pub industry_id: Option<i32>,
}

/// The tables that a donor row is related to.
#[derive(Clone, Copy, Debug, PartialEq, Eq)]
pub enum Relation {
    Donation,
    Industry,
}

} // verus!
