use donation_transparency::entities::{branch, donar, donation, party};
use donation_transparency::error::{not_found_message, push_decimal, QueryError, RecordKind};
use donation_transparency::helpers::{get_branch_ids, get_donations_for_branches};
use donation_transparency::queries::{
    all_donor_donations, branches_to_branch_ids, donations_by_donor, donations_for_branches,
    donor_by_id, party_by_id, party_id_for_branch, yearly_donations, YearlyDonation,
};

fn donation_of(id: i32, year: &str, amount: i64) -> donation::Model {
    donation::Model {
        id,
        year: year.to_string(),
        amount,
        branch_id: 3,
        donar_id: 6240,
    }
}

fn branch_of(id: i32, party_id: i32) -> branch::Model {
    branch::Model {
        id,
        name: format!("Branch {}", id),
        party_id,
    }
}

fn years(list: &[&str]) -> Vec<String> {
    list.iter().map(|y| y.to_string()).collect()
}

#[test]
fn not_found_messages_name_kind_and_id() {
    assert_eq!(not_found_message(RecordKind::Party, 7), "Party with id 7 not found");
    assert_eq!(not_found_message(RecordKind::Branch, 0), "Branch with id 0 not found");
    assert_eq!(not_found_message(RecordKind::Donor, -120), "Donor with id -120 not found");
    assert_eq!(
        not_found_message(RecordKind::Party, i32::MIN),
        "Party with id -2147483648 not found"
    );
    assert_eq!(
        not_found_message(RecordKind::Party, i32::MAX),
        "Party with id 2147483647 not found"
    );
}

#[test]
fn push_decimal_appends_digits() {
    let mut s = "id=".to_string();
    push_decimal(&mut s, 6240);
    assert_eq!(s, "id=6240");
    let mut t = String::new();
    push_decimal(&mut t, -9);
    assert_eq!(t, "-9");
}

#[test]
fn party_by_id_returns_found_party() {
    let found = party::Model { id: 1, name: "Animal Justice Party".to_string() };
    let res = party_by_id(1, Some(found.clone()));
    assert_eq!(res, Ok(found));
}

#[test]
fn party_by_id_reports_missing_party() {
    let res = party_by_id(42, None);
    assert_eq!(res, Err(QueryError::RecordNotFound("Party with id 42 not found".to_string())));
}

#[test]
fn party_id_for_branch_follows_the_branch() {
    assert_eq!(party_id_for_branch(3, Some(branch_of(3, 17))), Ok(17));
    assert_eq!(
        party_id_for_branch(12, None),
        Err(QueryError::RecordNotFound("Branch with id 12 not found".to_string()))
    );
}

#[test]
fn donor_by_id_returns_or_reports() {
    let donor = donar::Model { id: 6240, name: "Mark Bailey".to_string(), industry_id: None };
    assert_eq!(donor_by_id(6240, Some(donor.clone())), Ok(donor));
    assert_eq!(
        donor_by_id(-3, None),
        Err(QueryError::RecordNotFound("Donor with id -3 not found".to_string()))
    );
}

#[test]
fn branch_ids_keep_order() {
    let branches = vec![branch_of(5, 1), branch_of(2, 1), branch_of(9, 4)];
    assert_eq!(branches_to_branch_ids(branches.clone()), vec![5, 2, 9]);
    assert_eq!(get_branch_ids(branches), vec![5, 2, 9]);
    assert_eq!(branches_to_branch_ids(Vec::new()), Vec::<i32>::new());
}

#[test]
fn donations_for_branches_totals_each_year() {
    let fy = years(&["2022-23", "2023-24", "2024-25"]);
    let per_year = vec![
        vec![donation_of(1, "2022-23", 100), donation_of(2, "2022-23", 23)],
        vec![],
        vec![donation_of(3, "2024-25", 7)],
    ];
    let totals = donations_for_branches(&fy, per_year);
    assert_eq!(
        totals,
        vec![
            ("2022-23".to_string(), 123),
            ("2023-24".to_string(), 0),
            ("2024-25".to_string(), 7)
        ]
    );
}

#[test]
fn yearly_donations_label_each_total() {
    let fy = years(&["2021-22", "2022-23"]);
    let per_year = vec![vec![donation_of(1, "2021-22", 5)], vec![donation_of(2, "2022-23", 8), donation_of(3, "2022-23", 8)]];
    let out = yearly_donations(&fy, per_year);
    assert_eq!(
        out,
        vec![
            YearlyDonation { year: "2021-22".to_string(), amount: 5 },
            YearlyDonation { year: "2022-23".to_string(), amount: 16 }
        ]
    );
}

#[test]
fn donations_by_donor_names_the_party() {
    let fy = years(&["2023-24"]);
    let party = party::Model { id: 1, name: "Greens".to_string() };
    let (name, out) = donations_by_donor(&fy, vec![vec![donation_of(1, "2023-24", 250)]], &party);
    assert_eq!(name, "Greens");
    assert_eq!(out, vec![YearlyDonation { year: "2023-24".to_string(), amount: 250 }]);
}

#[test]
fn all_donor_donations_keeps_the_last_entry_per_party() {
    let first = vec![YearlyDonation { year: "2022-23".to_string(), amount: 1 }];
    let second = vec![YearlyDonation { year: "2022-23".to_string(), amount: 2 }];
    let third = vec![YearlyDonation { year: "2022-23".to_string(), amount: 3 }];
    let collection = all_donor_donations(vec![
        ("Labor".to_string(), first),
        ("Liberal".to_string(), second.clone()),
        ("Labor".to_string(), third.clone()),
    ]);
    assert_eq!(collection.len(), 2);
    assert_eq!(collection.get(&"Labor".to_string()), Some(&third));
    assert_eq!(collection.get(&"Liberal".to_string()), Some(&second));
    assert_eq!(collection.get(&"Nationals".to_string()), None);
}

#[test]
fn get_donations_for_branches_groups_by_year() {
    let fy = years(&["2022-23", "2023-24", "2022-23"]);
    let a = vec![donation_of(1, "2022-23", 1)];
    let b = vec![donation_of(2, "2023-24", 2)];
    let c = vec![donation_of(3, "2022-23", 3)];
    let by_year = get_donations_for_branches(&fy, vec![a, b.clone(), c.clone()]);
    assert_eq!(by_year.len(), 2);
    assert_eq!(by_year.get(&"2022-23".to_string()), Some(&c));
    assert_eq!(by_year.get(&"2023-24".to_string()), Some(&b));
}
