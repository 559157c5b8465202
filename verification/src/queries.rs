//! The computing part of the queries: what becomes of the rows that the
//! database returns.

use vstd::prelude::*;

use crate::entities::{branch, donar, donation, party};
use crate::error::{not_found_text, record_not_found, QueryError, RecordKind};
use crate::keyed_map::{entries_map, later_entry_wins, lemma_entries_map_dom, KeyedMap};
use crate::statistics::{calculate_total_donations, running_totals_fit, total_amount};

verus! {

/// The total given in one financial year; used for plotting the data.
#[derive(Clone, Debug, PartialEq, Eq)]
pub struct YearlyDonation {
    pub year: String,
    pub amount: i64,
}

/// This is essentially the reconstructed reciept row you would find in the
/// spreadsheet
#[derive(Clone, Debug, PartialEq, Eq)]
pub struct DonationReciept {
    pub party_name: String,
    pub branch_name: String,
    pub donor_name: String,
    pub financial_year: String,
    pub amount: i64,
}

/// Per-year totals keyed by party name.
pub type DonationCollection = KeyedMap<Vec<YearlyDonation>>;

/// The outcome of a lookup of a `kind` record by `id` that returned `found`:
/// the record itself, or the "not found" error.
pub open spec fn lookup_result<T>(kind: RecordKind, id: i32, found: Option<T>, res: Result<
    T,
    QueryError,
>) -> bool {
    match found {
        Some(x) => res == Ok::<T, QueryError>(x),
        None => res matches Err(QueryError::RecordNotFound(message)) && message@ == not_found_text(
            kind,
            id as int,
        ),
    }
}

/// The party with `id`, given what the lookup by primary key returned.
pub fn party_by_id(id: i32, selected_party: Option<party::Model>) -> (res: Result<
    party::Model,
    QueryError,
>)
    ensures
        lookup_result(RecordKind::Party, id, selected_party, res),
        selected_party matches Some(x) ==> res == Ok::<party::Model, QueryError>(x),
        selected_party is None ==> (res matches Err(QueryError::RecordNotFound(message))
            && message@ == not_found_text(RecordKind::Party, id as int)),
{
    match selected_party {
        Some(x) => Ok(x),
        None => Err(record_not_found(RecordKind::Party, id)),
    }
}

/// The id of the party that branch `id` belongs to, given what the lookup of
/// the branch by primary key returned.
pub fn party_id_for_branch(id: i32, selected_branch: Option<branch::Model>) -> (res: Result<
    i32,
    QueryError,
>)
    ensures
        lookup_result(
            RecordKind::Branch,
            id,
            match selected_branch {
                Some(b) => Some(b.party_id),
                None => None,
            },
            res,
        ),
        selected_branch matches Some(b) ==> res == Ok::<i32, QueryError>(b.party_id),
        selected_branch is None ==> (res matches Err(QueryError::RecordNotFound(message))
            && message@ == not_found_text(RecordKind::Branch, id as int)),
{
    match selected_branch {
        Some(x) => Ok(x.party_id),
        None => Err(record_not_found(RecordKind::Branch, id)),
    }
}

/// The donor with `id`, given what the lookup by primary key returned.
pub fn donor_by_id(id: i32, selected_donor: Option<donar::Model>) -> (res: Result<
    donar::Model,
    QueryError,
>)
    ensures
        lookup_result(RecordKind::Donor, id, selected_donor, res),
        selected_donor matches Some(x) ==> res == Ok::<donar::Model, QueryError>(x),
        selected_donor is None ==> (res matches Err(QueryError::RecordNotFound(message))
            && message@ == not_found_text(RecordKind::Donor, id as int)),
{
    match selected_donor {
        Some(x) => Ok(x),
        None => Err(record_not_found(RecordKind::Donor, id)),
    }
}

/// The ids of `branches`, in order.
pub open spec fn branch_ids(branches: Seq<branch::Model>) -> Seq<i32> {
    branches.map_values(|b: branch::Model| b.id)
}

/// Get all the branch ids associated with this list of branches
pub fn branches_to_branch_ids(branches: Vec<branch::Model>) -> (ids: Vec<i32>)
    ensures
        ids@ == branch_ids(branches@),
        ids.len() == branches.len(),
        forall|i: int| 0 <= i < branches.len() ==> #[trigger] ids@[i] == branches@[i].id,
{
    let mut ids: Vec<i32> = Vec::new();
    let n = branches.len();
    for i in 0..n
        invariant
            n == branches.len(),
            ids@ == branch_ids(branches@.take(i as int)),
    {
        assert(branch_ids(branches@.take(i + 1)) =~= branch_ids(branches@.take(i as int)).push(
            branches@[i as int].id,
        ));
        ids.push(branches[i].id);
    }
    assert(branches@.take(n as int) =~= branches@);
    ids
}

/// Every year's query result adds up without leaving the range of `i64`.
pub open spec fn yearly_sums_fit(donations_by_year: Seq<Vec<donation::Model>>) -> bool {
    forall|i: int| 0 <= i < donations_by_year.len() ==> running_totals_fit(#[trigger] donations_by_year[i]@)
}

/// Given an array of branch ids, corresponding to one party, and a list of
/// financial years, `donations_by_year[i]` holds the donations to those
/// branches in `financial_years[i]`. The result pairs each year, in order,
/// with the total of its donations.
pub fn donations_for_branches(
    financial_years: &Vec<String>,
    donations_by_year: Vec<Vec<donation::Model>>,
) -> (totals: Vec<(String, i64)>)
    requires
        donations_by_year.len() == financial_years.len(),
        yearly_sums_fit(donations_by_year@),
    ensures
        totals.len() == financial_years.len(),
        forall|i: int|
            0 <= i < totals.len() ==> (#[trigger] totals@[i]).0 == financial_years@[i] && totals@[i].1
                == total_amount(donations_by_year@[i]@),
{
    let mut rest = donations_by_year;
    let ghost given = rest@;
    let mut totals: Vec<(String, i64)> = Vec::new();
    let n = financial_years.len();
    for i in 0..n
        invariant
            n == financial_years.len(),
            given.len() == n,
            rest@.len() == n,
            yearly_sums_fit(given),
            forall|j: int| i <= j < n ==> #[trigger] rest@[j] == given[j],
            totals.len() == i,
            forall|j: int|
                0 <= j < i ==> (#[trigger] totals@[j]).0 == financial_years@[j] && totals@[j].1
                    == total_amount(given[j]@),
    {
        let mut donations: Vec<donation::Model> = Vec::new();
        rest.set_and_swap(i, &mut donations);
        assert(running_totals_fit(given[i as int]@));
        let total_amount = calculate_total_donations(donations);
        totals.push((financial_years[i].clone(), total_amount));
    }
    totals
}

/// The yearly totals of a donor's donations to one branch:
/// `donations_by_year[i]` holds the donations in `financial_years[i]`.
pub fn yearly_donations(
    financial_years: &Vec<String>,
    donations_by_year: Vec<Vec<donation::Model>>,
) -> (out: Vec<YearlyDonation>)
    requires
        donations_by_year.len() == financial_years.len(),
        yearly_sums_fit(donations_by_year@),
    ensures
        out.len() == financial_years.len(),
        forall|i: int|
            0 <= i < out.len() ==> (#[trigger] out@[i]).year == financial_years@[i] && out@[i].amount
                == total_amount(donations_by_year@[i]@),
{
    let mut rest = donations_by_year;
    let ghost given = rest@;
    let mut out: Vec<YearlyDonation> = Vec::new();
    let n = financial_years.len();
    for i in 0..n
        invariant
            n == financial_years.len(),
            given.len() == n,
            rest@.len() == n,
            yearly_sums_fit(given),
            forall|j: int| i <= j < n ==> #[trigger] rest@[j] == given[j],
            out.len() == i,
            forall|j: int|
                0 <= j < i ==> (#[trigger] out@[j]).year == financial_years@[j] && out@[j].amount
                    == total_amount(given[j]@),
    {
        let mut donations: Vec<donation::Model> = Vec::new();
        rest.set_and_swap(i, &mut donations);
        assert(running_totals_fit(given[i as int]@));
        let total = calculate_total_donations(donations);
        out.push(YearlyDonation { year: financial_years[i].clone(), amount: total });
    }
    out
}

/// A donor's contributions to one branch: the name of the branch's party,
/// with the yearly totals of the donations (see `yearly_donations`).
pub fn donations_by_donor(
    financial_years: &Vec<String>,
    donations_by_year: Vec<Vec<donation::Model>>,
    party: &party::Model,
) -> (contributions: (String, Vec<YearlyDonation>))
    requires
        donations_by_year.len() == financial_years.len(),
        yearly_sums_fit(donations_by_year@),
    ensures
        contributions.0 == party.name,
        contributions.1.len() == financial_years.len(),
        forall|i: int|
            0 <= i < contributions.1.len() ==> (#[trigger] contributions.1@[i]).year
                == financial_years@[i] && contributions.1@[i].amount == total_amount(
                donations_by_year@[i]@,
            ),
{
    let out = yearly_donations(financial_years, donations_by_year);
    (party.name.clone(), out)
}

/// All of a donor's contributions, one `(party name, yearly totals)` pair per
/// branch donated to, gathered by party name; a later pair for the same party
/// replaces an earlier one.
pub fn all_donor_donations(contributions: Vec<(String, Vec<YearlyDonation>)>) -> (out:
    DonationCollection)
    ensures
        out@ == entries_map(contributions@),
        forall|i: int|
            0 <= i < contributions.len() ==> out@.contains_key(#[trigger] contributions@[i].0@),
        forall|i: int|
            0 <= i < contributions.len() && (forall|j: int|
                i < j < contributions.len() ==> contributions@[j].0@ != contributions@[i].0@)
                ==> out@[#[trigger] contributions@[i].0@] == contributions@[i].1,
        forall|name: Seq<char>| #[trigger]
            out@.contains_key(name) ==> exists|i: int|
                0 <= i < contributions.len() && contributions@[i].0@ == name,
{
    let mut out: DonationCollection = KeyedMap::new();
    let mut rest = contributions;
    let ghost given = rest@;
    let n = rest.len();
    for i in 0..n
        invariant
            n == given.len(),
            rest@.len() == n,
            forall|j: int| i <= j < n ==> #[trigger] rest@[j] == given[j],
            out@ == entries_map(given.take(i as int)),
    {
        let mut entry: (String, Vec<YearlyDonation>) = (String::new(), Vec::new());
        rest.set_and_swap(i, &mut entry);
        assert(given.take(i + 1).drop_last() =~= given.take(i as int));
        let (name, yearly) = entry;
        out.insert(name, yearly);
    }
    assert(given.take(n as int) =~= given);
    proof {
        lemma_entries_described(given);
    }
    out
}

/// What the map of a list of entries holds, in terms of the entries alone:
/// every entry's key is present, an entry whose key does not come again is
/// the value under that key, and no other key is present.
pub proof fn lemma_entries_described<V>(entries: Seq<(String, V)>)
    ensures
        forall|i: int|
            0 <= i < entries.len() ==> entries_map(entries).contains_key(#[trigger] entries[i].0@),
        forall|i: int|
            0 <= i < entries.len() && (forall|j: int|
                i < j < entries.len() ==> entries[j].0@ != entries[i].0@) ==> entries_map(
                entries,
            )[#[trigger] entries[i].0@] == entries[i].1,
        forall|name: Seq<char>| #[trigger]
            entries_map(entries).contains_key(name) ==> exists|i: int|
                0 <= i < entries.len() && entries[i].0@ == name,
{
    assert forall|i: int| 0 <= i < entries.len() implies entries_map(entries).contains_key(
        #[trigger] entries[i].0@,
    ) by {
        lemma_entries_map_dom(entries, entries[i].0@);
    }
    assert forall|i: int|
        0 <= i < entries.len() && (forall|j: int|
            i < j < entries.len() ==> entries[j].0@ != entries[i].0@) implies entries_map(
        entries,
    )[#[trigger] entries[i].0@] == entries[i].1 by {
        later_entry_wins(entries, i);
    }
    assert forall|name: Seq<char>| #[trigger]
        entries_map(entries).contains_key(name) implies exists|i: int|
        0 <= i < entries.len() && entries[i].0@ == name by {
        lemma_entries_map_dom(entries, name);
    }
}

/// Each year's donations can be summed exactly when every year's list can.
pub proof fn yearly_sums_fit_exactly(donations_by_year: Seq<Vec<donation::Model>>)
    ensures
        yearly_sums_fit(donations_by_year) <==> forall|i: int|
            0 <= i < donations_by_year.len() ==> running_totals_fit(#[trigger] donations_by_year[i]@),
{
}

/// The ids of a list of branches are one per branch, in order: the id at
/// each position is the id of the branch at that position.
pub proof fn branch_ids_one_per_branch(branches: Seq<branch::Model>)
    ensures
        branch_ids(branches).len() == branches.len(),
        forall|i: int| 0 <= i < branches.len() ==> #[trigger] branch_ids(branches)[i] == branches[i].id,
{
}

/// A lookup that found a record gives exactly that record; one that found
/// nothing gives the "not found" error for the kind and id asked for.
pub proof fn lookup_result_law<T>(kind: RecordKind, id: i32, found: Option<T>, res: Result<T, QueryError>)
    requires
        lookup_result(kind, id, found, res),
    ensures
        found matches Some(x) ==> res == Ok::<T, QueryError>(x),
        found is None ==> (res matches Err(QueryError::RecordNotFound(message)) && message@
            == not_found_text(kind, id as int)),
{
}

/// A lookup outcome is determined by what was found: a found record is never
/// reported missing, and a missing one is never given as found.
pub proof fn lookup_result_unique<T>(kind: RecordKind, id: i32, found: Option<T>, a: Result<T, QueryError>, b: Result<T, QueryError>)
    requires
        lookup_result(kind, id, found, a),
        lookup_result(kind, id, found, b),
        found is Some,
    ensures
        a == b,
        a is Ok,
{
}

} // verus!
