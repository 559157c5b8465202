//! Rows of the tables that hold the receipts.

pub mod branch;
pub mod donar;
pub mod donation;
pub mod industry;
pub mod party;
