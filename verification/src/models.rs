use vstd::prelude::*;

verus! {

/// A party branch.
#[derive(Clone, Debug, PartialEq, Eq)]
pub struct Branch {
    pub id: i32,
    pub name: String,
    pub party_id: i32,
}

/// A donor.
#[derive(Clone, Debug, PartialEq, Eq)]
pub struct Donar {
    pub id: i32,
    pub name: String,
    pub industry_id: Option<i32>,
}

/// An industry that donors belong to.
#[derive(Clone, Debug, PartialEq, Eq)]
pub struct Industry {
    pub id: i32,
    pub name: String,
}

/// A political party.
#[derive(Clone, Debug, PartialEq, Eq)]
pub struct Party {
    pub id: i32,
    pub name: String,
}

/// This is NOT an exact copy of the table as
/// this table is almost always used with a join
/// to reconstruct the names
#[derive(Clone, Debug, PartialEq, Eq)]
pub struct Donation {
    pub id: i32,
    pub year: String,
    pub amount: i64,
    pub branch_name: String,
    pub donar_name: String,
}

} // verus!
