use vstd::prelude::*;

use crate::entities::donation;
use vstd::seq_lib::group_to_multiset_ensures;

verus! {

/// The sum of the amounts of `donations`, taken as a mathematical integer.
pub open spec fn total_amount(donations: Seq<donation::Model>) -> int
    decreases donations.len(),
{
    if donations.len() == 0 {
        0
    } else {
        total_amount(donations.drop_last()) + donations.last().amount
    }
}

/// Adding the amounts of `donations` from the first to the last never leaves
/// the range of `i64`: every running total fits.
pub open spec fn running_totals_fit(donations: Seq<donation::Model>) -> bool {
    forall|k: int|
        0 <= k <= donations.len() ==> i64::MIN <= #[trigger] total_amount(donations.take(k))
            <= i64::MAX
}

/// Simply sums all the donation amounts given a query return
pub fn calculate_total_donations(donations: Vec<donation::Model>) -> (total: i64)
    requires
        running_totals_fit(donations@),
    ensures
        total == total_amount(donations@),
{
    let mut total: i64 = 0;
    let n = donations.len();
    assert(donations@.take(0) =~= Seq::<donation::Model>::empty());
    for i in 0..n
        invariant
            n == donations.len(),
            running_totals_fit(donations@),
            total == total_amount(donations@.take(i as int)),
    {
        assert(donations@.take(i + 1).drop_last() =~= donations@.take(i as int));
        assert(i64::MIN <= total_amount(donations@.take(i + 1)) <= i64::MAX);
        total = total + donations[i].amount;
    }
    assert(donations@.take(n as int) =~= donations@);
    total
}

/// Whether every running total of `donations` fits in an `i64`, that is,
/// whether `calculate_total_donations` can add them up without overflow.
pub fn totals_fit(donations: &Vec<donation::Model>) -> (fit: bool)
    ensures
        fit == running_totals_fit(donations@),
        fit == (forall|k: int|
            0 <= k <= donations.len() ==> i64::MIN <= #[trigger] total_amount(donations@.take(k))
                <= i64::MAX),
{
    let mut total: i128 = 0;
    let n = donations.len();
    assert(donations@.take(0) =~= Seq::<donation::Model>::empty());
    for i in 0..n
        invariant
            n == donations.len(),
            total == total_amount(donations@.take(i as int)),
            i64::MIN <= total <= i64::MAX,
            forall|k: int|
                0 <= k <= i ==> i64::MIN <= #[trigger] total_amount(donations@.take(k))
                    <= i64::MAX,
    {
        assert(donations@.take(i + 1).drop_last() =~= donations@.take(i as int));
        total = total + donations[i].amount as i128;
        if total < i64::MIN as i128 || total > i64::MAX as i128 {
            assert(!(i64::MIN <= total_amount(donations@.take(i + 1)) <= i64::MAX));
            return false;
        }
    }
    assert(donations@.take(n as int) =~= donations@);
    true
}

/// Whether a list can be summed depends on its running totals alone: it can
/// exactly when every running total lies in the range of `i64`, whatever the
/// number of donations.
pub proof fn running_totals_fit_exactly(donations: Seq<donation::Model>)
    ensures
        running_totals_fit(donations) <==> (forall|k: int|
            0 <= k <= donations.len() ==> i64::MIN <= #[trigger] total_amount(donations.take(k))
                <= i64::MAX),
{
}

/// The total of no donations is zero, the total of one is its amount, and
/// one more donation adds its amount.
pub proof fn total_amount_steps(donations: Seq<donation::Model>, d: donation::Model)
    ensures
        total_amount(Seq::<donation::Model>::empty()) == 0,
        total_amount(seq![d]) == d.amount,
        total_amount(donations.push(d)) == total_amount(donations) + d.amount,
{
    assert(seq![d].drop_last() =~= Seq::<donation::Model>::empty());
    assert(total_amount(seq![d].drop_last()) == 0);
    assert(seq![d].last() == d);
    assert(donations.push(d).drop_last() =~= donations);
}

/// The total of donations that are none of them negative is not negative.
proof fn total_amount_nonnegative(donations: Seq<donation::Model>)
    requires
        forall|i: int| 0 <= i < donations.len() ==> 0 <= #[trigger] donations[i].amount,
    ensures
        0 <= total_amount(donations),
    decreases donations.len(),
{
    if donations.len() > 0 {
        let init = donations.drop_last();
        assert forall|i: int| 0 <= i < init.len() implies 0 <= #[trigger] init[i].amount by {
            assert(init[i] == donations[i]);
        }
        total_amount_nonnegative(init);
        assert(0 <= donations[donations.len() - 1].amount);
    }
}

/// Donations that are none of them negative, and whose total fits in an
/// `i64`, can be summed: no running total exceeds the final one.
pub proof fn nonnegative_amounts_fit(donations: Seq<donation::Model>)
    requires
        forall|i: int| 0 <= i < donations.len() ==> 0 <= #[trigger] donations[i].amount,
        total_amount(donations) <= i64::MAX,
    ensures
        running_totals_fit(donations),
{
    assert forall|k: int| 0 <= k <= donations.len() implies i64::MIN <= #[trigger] total_amount(
        donations.take(k),
    ) <= i64::MAX by {
        let prefix = donations.take(k);
        let suffix = donations.skip(k);
        assert(prefix + suffix =~= donations);
        total_amount_of_concat(prefix, suffix);
        assert forall|i: int| 0 <= i < prefix.len() implies 0 <= #[trigger] prefix[i].amount by {
            assert(prefix[i] == donations[i]);
        }
        assert forall|i: int| 0 <= i < suffix.len() implies 0 <= #[trigger] suffix[i].amount by {
            assert(suffix[i] == donations[i + k]);
        }
        total_amount_nonnegative(prefix);
        total_amount_nonnegative(suffix);
    }
}

/// The total of two lists of donations, one after the other, is the sum of
/// their totals: the totals of separate years add up to the total of all.
pub proof fn total_amount_of_concat(first: Seq<donation::Model>, second: Seq<donation::Model>)
    ensures
        total_amount(first + second) == total_amount(first) + total_amount(second),
    decreases second.len(),
{
    if second.len() == 0 {
        assert(first + second =~= first);
    } else {
        total_amount_of_concat(first, second.drop_last());
        assert((first + second).drop_last() =~= first + second.drop_last());
    }
}

/// Taking one donation out of a list lowers its total by that amount.
proof fn total_amount_without(donations: Seq<donation::Model>, i: int)
    requires
        0 <= i < donations.len(),
    ensures
        total_amount(donations) == total_amount(donations.remove(i)) + donations[i].amount,
    decreases donations.len(),
{
    if i == donations.len() - 1 {
        assert(donations.remove(i) =~= donations.drop_last());
    } else {
        let init = donations.drop_last();
        total_amount_without(init, i);
        assert(donations.remove(i).drop_last() =~= init.remove(i));
    }
}

/// The total does not depend on the order in which the database returns the
/// rows: two lists holding the same donations have the same total.
pub proof fn total_amount_ignores_order(a: Seq<donation::Model>, b: Seq<donation::Model>)
    requires
        a.to_multiset() == b.to_multiset(),
    ensures
        total_amount(a) == total_amount(b),
    decreases a.len(),
{
    broadcast use group_to_multiset_ensures;

    if a.len() == 0 {
        assert(a.to_multiset().len() == a.len());
        assert(b.to_multiset().len() == b.len());
        assert(b.len() == 0);
    } else {
        let last = a.len() - 1;
        let x = a[last];
        assert(a.contains(x));
        assert(b.to_multiset().count(x) > 0);
        assert(b.contains(x));
        let j = choose|j: int| 0 <= j < b.len() && b[j] == x;
        assert(a.remove(last) =~= a.drop_last());
        assert(a.drop_last().to_multiset() =~= b.remove(j).to_multiset());
        total_amount_ignores_order(a.drop_last(), b.remove(j));
        total_amount_without(b, j);
    }
}

} // verus!
