//! What holds of every store, whatever was done to it.
//!
//! Each law is stated over [`StoreModel`], by whose functions the operations
//! of the executable store are specified.

use vstd::prelude::*;
use vstd::seq_lib::{to_multiset_contains, to_multiset_len, to_multiset_remove};
use crate::counter::CounterModel;
use crate::ids::{lemma_id_before_irreflexive, lemma_id_before_transitive};
use crate::migration::lemma_record_all_idempotent;
use crate::model::{main_counter_id, sum_of, StoreModel};

verus! {

/// A read of an id that the store does not hold returns 0, and the counter
/// that the read leaves behind has had no increment applied.
pub proof fn lemma_first_read(store: StoreModel, id: Seq<char>)
    requires
        !store.counters.contains_key(id),
    ensures
        store.value_of(id) == 0,
        store.after_get(id).stats_of(id) == Some(CounterModel::fresh()),
        store.after_get(id).stats_of(id)->0.total_increments == 0,
{
}

/// What a run of increments of one id does to the store: the counter of that
/// id moves as the laws below say, and nothing else changes.
proof fn lemma_after_increments(store: StoreModel, id: Seq<char>, amounts: Seq<int>)
    ensures
        ({
            let before = store.counter_or_fresh(id);
            let after = store.after_increments(id, amounts).counter_or_fresh(id);
            &&& after.value == before.value + sum_of(amounts)
            &&& after.total_increments == before.total_increments + amounts.len()
            &&& after.increment_sum == before.increment_sum + sum_of(amounts)
            &&& after.highest_value >= before.highest_value
            &&& forall|k: int|
                1 <= k <= amounts.len() ==> after.highest_value >= before.value + sum_of(
                    #[trigger] amounts.take(k),
                )
            &&& after.highest_value == before.highest_value || exists|k: int|
                1 <= k <= amounts.len() && after.highest_value == before.value + sum_of(
                    #[trigger] amounts.take(k),
                )
        }),
        store.after_increments(id, amounts).applied == store.applied,
        store.after_increments(id, amounts).counters.remove(id) == store.counters.remove(id),
        amounts.len() > 0 ==> store.after_increments(id, amounts).counters.contains_key(id),
    decreases amounts.len(),
{
    let n = amounts.len() as int;
    if n > 0 {
        let head = amounts.drop_last();
        lemma_after_increments(store, id, head);
        // The first `k` of `amounts` are the first `k` of `head`, but for
        // `k == n`, where they are all of `amounts`.
        assert(amounts.take(n) =~= amounts);
        assert forall|k: int| 1 <= k < n implies #[trigger] amounts.take(k) == head.take(k) by {
            assert(amounts.take(k) =~= head.take(k));
        }
        let before = store.counter_or_fresh(id);
        let mid = store.after_increments(id, head).counter_or_fresh(id);
        let after = store.after_increments(id, amounts).counter_or_fresh(id);
        if after.highest_value != before.highest_value && after.highest_value
            == mid.highest_value {
            // The peak was reached within `head`.
            let k = choose|k: int|
                1 <= k <= head.len() && mid.highest_value == before.value + sum_of(
                    #[trigger] head.take(k),
                );
            assert(amounts.take(k) == head.take(k));
        }
    }
}

/// After the increments `amounts` of one id, applied one after the other, the
/// value of its counter has grown by their sum and its count of increments by
/// their number. For an id that the store did not hold, the value is their
/// sum and the count their number.
pub proof fn lemma_increments_add_up(store: StoreModel, id: Seq<char>, amounts: Seq<int>)
    ensures
        store.after_increments(id, amounts).value_of(id) == store.value_of(id) + sum_of(amounts),
        store.after_increments(id, amounts).counter_or_fresh(id).total_increments
            == store.counter_or_fresh(id).total_increments + amounts.len(),
        !store.counters.contains_key(id) ==> {
            &&& store.after_increments(id, amounts).value_of(id) == sum_of(amounts)
            &&& store.after_increments(id, amounts).counter_or_fresh(id).total_increments
                == amounts.len()
        },
{
    lemma_after_increments(store, id, amounts);
}

/// After the increments `amounts` of one id, the highest value of its counter
/// is the largest among the highest value from before and the values that
/// the increments left behind, one after the other. For an id that the store
/// did not hold, that is the largest among 0 and the sums of the first `k`
/// amounts.
pub proof fn lemma_highest_value_is_peak(store: StoreModel, id: Seq<char>, amounts: Seq<int>)
    ensures
        ({
            let before = store.counter_or_fresh(id);
            let highest = store.after_increments(id, amounts).counter_or_fresh(id).highest_value;
            &&& highest >= before.highest_value
            &&& forall|k: int|
                1 <= k <= amounts.len() ==> highest >= before.value + sum_of(
                    #[trigger] amounts.take(k),
                )
            &&& highest == before.highest_value || exists|k: int|
                1 <= k <= amounts.len() && highest == before.value + sum_of(
                    #[trigger] amounts.take(k),
                )
        }),
        !store.counters.contains_key(id) ==> {
            let highest = store.after_increments(id, amounts).counter_or_fresh(id).highest_value;
            &&& forall|k: int|
                0 <= k <= amounts.len() ==> highest >= sum_of(#[trigger] amounts.take(k))
            &&& exists|k: int|
                0 <= k <= amounts.len() && highest == sum_of(#[trigger] amounts.take(k))
        },
{
    lemma_after_increments(store, id, amounts);
    // The sum of no amounts is the 0 from which a fresh counter starts.
    assert(amounts.take(0) =~= Seq::<int>::empty());
}

/// A counter whose highest value is no smaller than its value keeps it so
/// under increments.
pub proof fn lemma_highest_value_bounds_value(
    store: StoreModel,
    id: Seq<char>,
    amounts: Seq<int>,
)
    requires
        store.counter_or_fresh(id).highest_value >= store.counter_or_fresh(id).value,
    ensures
        store.after_increments(id, amounts).counter_or_fresh(id).highest_value
            >= store.after_increments(id, amounts).counter_or_fresh(id).value,
    decreases amounts.len(),
{
    if amounts.len() > 0 {
        lemma_highest_value_bounds_value(store, id, amounts.drop_last());
    }
}

/// After the increments `amounts` of one id, the sum kept in its counter has
/// grown by the sum of the amounts. For an id that the store did not hold,
/// the average increment is the arithmetic mean of the amounts: their sum
/// over their number.
pub proof fn lemma_average_is_mean_of_amounts(store: StoreModel, id: Seq<char>, amounts: Seq<int>)
    ensures
        store.after_increments(id, amounts).counter_or_fresh(id).increment_sum
            == store.counter_or_fresh(id).increment_sum + sum_of(amounts),
        !store.counters.contains_key(id) && amounts.len() > 0 ==> store.after_increments(
            id,
            amounts,
        ).counters[id].average_increment() == (sum_of(amounts) as real) / (amounts.len() as real),
{
    lemma_after_increments(store, id, amounts);
}

/// Increments of one id leave every other counter and the record of upgrades
/// as they were.
pub proof fn lemma_increments_touch_one_counter(
    store: StoreModel,
    id: Seq<char>,
    amounts: Seq<int>,
    other: Seq<char>,
)
    requires
        other != id,
    ensures
        store.after_increments(id, amounts).stats_of(other) == store.stats_of(other),
        store.after_increments(id, amounts).applied == store.applied,
{
    lemma_after_increments(store, id, amounts);
    let end = store.after_increments(id, amounts);
    assert(end.counters.remove(id).contains_key(other) == store.counters.remove(id).contains_key(
        other,
    ));
    assert(end.counters.remove(id)[other] == store.counters.remove(id)[other]);
}

/// Two increments of one id may be applied in either order: neither is lost,
/// and the value, the count of increments and their sum come out the same.
/// Two increments by 1 of an id that the store did not hold leave the value 2.
pub proof fn lemma_no_lost_update(store: StoreModel, id: Seq<char>, a: int, b: int)
    ensures
        ({
            let before = store.counter_or_fresh(id);
            let ab = store.after_increment(id, a).after_increment(id, b).counter_or_fresh(id);
            let ba = store.after_increment(id, b).after_increment(id, a).counter_or_fresh(id);
            &&& ab.value == before.value + a + b
            &&& ab.total_increments == before.total_increments + 2
            &&& ab.increment_sum == before.increment_sum + a + b
            &&& ba.value == ab.value
            &&& ba.total_increments == ab.total_increments
            &&& ba.increment_sum == ab.increment_sum
        }),
        !store.counters.contains_key(id) ==> store.after_increment(id, 1).after_increment(
            id,
            1,
        ).value_of(id) == 2,
{
}

/// Taking one amount out of a sequence lowers the sum by that amount.
proof fn lemma_sum_of_remove(amounts: Seq<int>, i: int)
    requires
        0 <= i < amounts.len(),
    ensures
        sum_of(amounts.remove(i)) == sum_of(amounts) - amounts[i],
    decreases amounts.len(),
{
    if i == amounts.len() - 1 {
        assert(amounts.remove(i) =~= amounts.drop_last());
    } else {
        lemma_sum_of_remove(amounts.drop_last(), i);
        assert(amounts.remove(i).drop_last() =~= amounts.drop_last().remove(i));
    }
}

/// The sum of amounts does not depend on their order.
proof fn lemma_sum_of_any_order(first: Seq<int>, second: Seq<int>)
    requires
        first.to_multiset() == second.to_multiset(),
    ensures
        sum_of(first) == sum_of(second),
        first.len() == second.len(),
    decreases first.len(),
{
    to_multiset_len(first);
    to_multiset_len(second);
    if first.len() > 0 {
        // Take the last of `first` out of both.
        let i = first.len() - 1;
        assert(first.contains(first[i]));
        to_multiset_contains(first, first[i]);
        to_multiset_contains(second, first[i]);
        let j = choose|j: int| 0 <= j < second.len() && second[j] == first[i];
        to_multiset_remove(first, i);
        to_multiset_remove(second, j);
        assert(first.remove(i) =~= first.drop_last());
        lemma_sum_of_any_order(first.drop_last(), second.remove(j));
        lemma_sum_of_remove(second, j);
    }
}

/// In whatever order a store applies a given collection of increments of one
/// id, the value of the counter, its count of increments and their sum come
/// out the same: the value has grown by the sum of all of them.
pub proof fn lemma_any_order_of_increments(
    store: StoreModel,
    id: Seq<char>,
    first: Seq<int>,
    second: Seq<int>,
)
    requires
        first.to_multiset() == second.to_multiset(),
    ensures
        ({
            let one = store.after_increments(id, first).counter_or_fresh(id);
            let other = store.after_increments(id, second).counter_or_fresh(id);
            &&& one.value == store.value_of(id) + sum_of(first)
            &&& other.value == one.value
            &&& other.total_increments == one.total_increments
            &&& other.increment_sum == one.increment_sum
        }),
{
    lemma_after_increments(store, id, first);
    lemma_after_increments(store, id, second);
    lemma_sum_of_any_order(first, second);
}

/// Increments of two different ids do not touch each other: in either order
/// they leave the same store.
pub proof fn lemma_increments_of_two_ids_commute(
    store: StoreModel,
    x: Seq<char>,
    a: int,
    y: Seq<char>,
    b: int,
)
    requires
        x != y,
    ensures
        store.after_increment(x, a).after_increment(y, b) == store.after_increment(
            y,
            b,
        ).after_increment(x, a),
{
}

/// No read, set or increment lowers a counter's count of increments.
pub proof fn lemma_total_increments_never_falls(
    store: StoreModel,
    id: Seq<char>,
    value: int,
    amount: int,
)
    ensures
        store.after_get(id).counter_or_fresh(id).total_increments == store.counter_or_fresh(
            id,
        ).total_increments,
        store.after_set(id, value).counter_or_fresh(id).total_increments
            == store.counter_or_fresh(id).total_increments,
        store.after_increment(id, amount).counter_or_fresh(id).total_increments
            == store.counter_or_fresh(id).total_increments + 1,
{
}

/// The first `upto` entries of two listings of one store are the same.
proof fn lemma_listings_agree(
    store: StoreModel,
    first: Seq<(Seq<char>, i32)>,
    second: Seq<(Seq<char>, i32)>,
    upto: int,
)
    requires
        store.is_listing(first),
        store.is_listing(second),
        0 <= upto <= first.len(),
    ensures
        upto <= second.len(),
        forall|j: int| 0 <= j < upto ==> first[j] == second[j],
    decreases upto,
{
    if upto > 0 {
        let i = upto - 1;
        lemma_listings_agree(store, first, second, i);
        // Each listing shows the id that the other has at `i`: `second` at
        // `k`, `first` at `m`. Neither place is below `i`, where the listings
        // agree, and if `k` were above `i`, the id at `i` in `second` would
        // come before itself.
        let k = choose|k: int| 0 <= k < second.len() && (#[trigger] second[k]).0 == first[i].0;
        let m = choose|m: int| 0 <= m < first.len() && (#[trigger] first[m]).0 == second[i].0;
        lemma_id_before_irreflexive(first[i].0);
        lemma_id_before_irreflexive(second[i].0);
        if k > i && m > i {
            lemma_id_before_transitive(second[i].0, second[k].0, first[m].0);
        }
    }
}

/// A store has one listing only: what `is_listing` says of a sequence, it
/// says of no other.
pub proof fn lemma_listing_is_unique(
    store: StoreModel,
    first: Seq<(Seq<char>, i32)>,
    second: Seq<(Seq<char>, i32)>,
)
    requires
        store.is_listing(first),
        store.is_listing(second),
    ensures
        first == second,
{
    lemma_listings_agree(store, first, second, first.len() as int);
    lemma_listings_agree(store, second, first, second.len() as int);
}

/// Once an id is deleted the store does not hold it, a store that did not
/// hold it is unchanged, and the next read of the id returns 0.
pub proof fn lemma_delete_then_get(store: StoreModel, id: Seq<char>)
    ensures
        store.after_delete(id).stats_of(id) is None,
        !store.counters.contains_key(id) ==> store.after_delete(id) == store,
        store.after_delete(id).value_of(id) == 0,
{
}

/// A store that has been started up holds the main counter, and no counter
/// that it held before has changed.
pub proof fn lemma_bootstrap_keeps_counters(
    store: StoreModel,
    migrations: Seq<i64>,
    id: Seq<char>,
)
    ensures
        store.bootstrapped(migrations).counters.contains_key(main_counter_id()),
        store.counters.contains_key(id) ==> store.bootstrapped(migrations).stats_of(id)
            == store.stats_of(id),
{
}

/// The start-up sequence run twice in a row leaves what one run leaves.
pub proof fn lemma_bootstrap_idempotent(store: StoreModel, migrations: Seq<i64>)
    ensures
        store.bootstrapped(migrations).bootstrapped(migrations) == store.bootstrapped(migrations),
{
    lemma_record_all_idempotent(store.applied, migrations);
}

} // verus!
