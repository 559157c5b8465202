//! Grouping of query results by financial year.

use vstd::prelude::*;

use crate::entities::{branch, donation};
use crate::keyed_map::{entries_map, KeyedMap};
use crate::queries::{branch_ids, branches_to_branch_ids, lemma_entries_described};

verus! {

/// The ids of `branches`, in order.
pub fn get_branch_ids(branches: Vec<branch::Model>) -> (ids: Vec<i32>)
    ensures
        ids@ == branch_ids(branches@),
        ids.len() == branches.len(),
        forall|i: int| 0 <= i < branches.len() ==> #[trigger] ids@[i] == branches@[i].id,
{
    branches_to_branch_ids(branches)
}

/// The pairs `(financial_years[i], donations_by_year[i])`, in order.
pub open spec fn year_entries(
    financial_years: Seq<String>,
    donations_by_year: Seq<Vec<donation::Model>>,
) -> Seq<(String, Vec<donation::Model>)> {
    Seq::new(financial_years.len(), |i: int| (financial_years[i], donations_by_year[i]))
}

/// Key => financial_year, Val => Donations: `donations_by_year[i]` holds the
/// donations to the branches in `financial_years[i]`. Where a year is listed
/// twice, its later list is kept.
pub fn get_donations_for_branches(
    financial_years: &Vec<String>,
    donations_by_year: Vec<Vec<donation::Model>>,
) -> (by_year: KeyedMap<Vec<donation::Model>>)
    requires
        donations_by_year.len() == financial_years.len(),
    ensures
        by_year@ == entries_map(year_entries(financial_years@, donations_by_year@)),
        forall|i: int|
            0 <= i < financial_years.len() ==> by_year@.contains_key(#[trigger] financial_years@[i]@),
        forall|i: int|
            0 <= i < financial_years.len() && (forall|j: int|
                i < j < financial_years.len() ==> financial_years@[j]@ != financial_years@[i]@)
                ==> by_year@[#[trigger] financial_years@[i]@] == donations_by_year@[i],
        forall|year: Seq<char>| #[trigger]
            by_year@.contains_key(year) ==> exists|i: int|
                0 <= i < financial_years.len() && financial_years@[i]@ == year,
{
    let mut by_year: KeyedMap<Vec<donation::Model>> = KeyedMap::new();
    let mut rest = donations_by_year;
    let ghost given = rest@;
    let ghost entries = year_entries(financial_years@, given);
    let n = financial_years.len();
    for i in 0..n
        invariant
            n == financial_years.len(),
            given.len() == n,
            rest@.len() == n,
            entries == year_entries(financial_years@, given),
            forall|j: int| i <= j < n ==> #[trigger] rest@[j] == given[j],
            by_year@ == entries_map(entries.take(i as int)),
    {
        let mut donations: Vec<donation::Model> = Vec::new();
        rest.set_and_swap(i, &mut donations);
        assert(entries.take(i + 1).drop_last() =~= entries.take(i as int));
        by_year.insert(financial_years[i].clone(), donations);
    }
    assert(entries.take(n as int) =~= entries);
    proof {
        year_entries_grouped(financial_years@, given);
    }
    by_year
}

/// Grouping by year keeps every requested year as a key, holds under each
/// year the donations of its last listing, and has no other key.
pub proof fn year_entries_grouped(
    financial_years: Seq<String>,
    donations_by_year: Seq<Vec<donation::Model>>,
)
    requires
        donations_by_year.len() == financial_years.len(),
    ensures
        forall|i: int|
            0 <= i < financial_years.len() ==> entries_map(
                year_entries(financial_years, donations_by_year),
            ).contains_key(#[trigger] financial_years[i]@),
        forall|i: int|
            0 <= i < financial_years.len() && (forall|j: int|
                i < j < financial_years.len() ==> financial_years[j]@ != financial_years[i]@)
                ==> entries_map(year_entries(financial_years, donations_by_year))[
                #[trigger] financial_years[i]@] == donations_by_year[i],
        forall|year: Seq<char>| #[trigger]
            entries_map(year_entries(financial_years, donations_by_year)).contains_key(year)
                ==> exists|i: int| 0 <= i < financial_years.len() && financial_years[i]@ == year,
{
    let entries = year_entries(financial_years, donations_by_year);
    assert(entries.len() == financial_years.len());
    assert forall|i: int| 0 <= i < entries.len() implies #[trigger] entries[i] == (
        financial_years[i],
        donations_by_year[i],
    ) by {}
    lemma_entries_described(entries);
    assert forall|i: int|
        0 <= i < financial_years.len() implies entries_map(entries).contains_key(
        #[trigger] financial_years[i]@,
    ) by {
        assert(entries[i].0@ == financial_years[i]@);
    }
    assert forall|i: int|
        0 <= i < financial_years.len() && (forall|j: int|
            i < j < financial_years.len() ==> financial_years[j]@ != financial_years[i]@)
            implies entries_map(entries)[#[trigger] financial_years[i]@] == donations_by_year[i] by {
        assert(entries[i].0@ == financial_years[i]@);
        assert forall|j: int| i < j < entries.len() implies entries[j].0@ != entries[i].0@ by {
            assert(entries[j].0@ == financial_years[j]@);
        }
    }
    assert forall|year: Seq<char>| #[trigger]
        entries_map(entries).contains_key(year) implies exists|i: int|
        0 <= i < financial_years.len() && financial_years[i]@ == year by {
        let i = choose|i: int| 0 <= i < entries.len() && entries[i].0@ == year;
        assert(entries[i].0@ == financial_years[i]@);
    }
}

} // verus!
