use donation_transparency::entities::donation;
use donation_transparency::statistics::{calculate_total_donations, totals_fit};

fn donation_of(id: i32, year: &str, amount: i64) -> donation::Model {
    donation::Model {
        id,
        year: year.to_string(),
        amount,
        branch_id: 1,
        donar_id: 2,
    }
}

#[test]
fn total_of_no_donations_is_zero() {
    assert_eq!(calculate_total_donations(Vec::new()), 0);
}

#[test]
fn total_sums_all_amounts() {
    let donations = vec![
        donation_of(1, "2022-23", 1500),
        donation_of(2, "2022-23", 250),
        donation_of(3, "2022-23", -50),
    ];
    assert_eq!(calculate_total_donations(donations), 1700);
}

#[test]
fn total_is_additive_over_concatenation() {
    let first = vec![donation_of(1, "2021-22", 40), donation_of(2, "2021-22", 2)];
    let second = vec![donation_of(3, "2022-23", 900)];
    let mut both = first.clone();
    both.extend(second.clone());
    assert_eq!(
        calculate_total_donations(both),
        calculate_total_donations(first) + calculate_total_donations(second)
    );
}

#[test]
fn total_does_not_depend_on_order() {
    let forward = vec![
        donation_of(1, "2023-24", 10),
        donation_of(2, "2023-24", 200),
        donation_of(3, "2023-24", 3000),
    ];
    let mut backward = forward.clone();
    backward.reverse();
    assert_eq!(calculate_total_donations(forward), 3210);
    assert_eq!(calculate_total_donations(backward), 3210);
}

#[test]
fn totals_fit_accepts_large_but_representable_sums() {
    let donations = vec![donation_of(1, "2022-23", i64::MAX), donation_of(2, "2022-23", -1)];
    assert!(totals_fit(&donations));
    assert_eq!(calculate_total_donations(donations), i64::MAX - 1);
}

#[test]
fn totals_fit_rejects_overflow() {
    let donations = vec![donation_of(1, "2022-23", i64::MAX), donation_of(2, "2022-23", 1)];
    assert!(!totals_fit(&donations));
    let low = vec![donation_of(1, "2022-23", i64::MIN), donation_of(2, "2022-23", -1)];
    assert!(!totals_fit(&low));
}

#[test]
fn totals_fit_checks_every_running_total() {
    // The final sum fits, but the running total leaves the range on the way.
    let donations = vec![
        donation_of(1, "2022-23", i64::MAX),
        donation_of(2, "2022-23", 1),
        donation_of(3, "2022-23", -1),
    ];
    assert!(!totals_fit(&donations));
    assert!(totals_fit(&Vec::new()));
}
