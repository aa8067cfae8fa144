//! The store of counters as a mathematical value.
//!
//! A store is the record of the schema upgrades applied to it and a map from
//! ids to counters. Each operation of the store is a function on such values;
//! the executable store is specified by them.

use vstd::prelude::*;
use crate::counter::CounterModel;
use crate::database::MAIN_COUNTER_ID;
use crate::ids::id_before;
use crate::migration::record_all;

verus! {

/// The id of the main counter, as a sequence of characters.
pub open spec fn main_counter_id() -> Seq<char> {
    MAIN_COUNTER_ID@
}

/// What a store holds.
#[verifier::ext_equal]
pub struct StoreModel {
    /// The markers of the schema upgrades applied, in the order of their
    /// application.
    pub applied: Seq<i64>,
    /// The counters by id.
    pub counters: Map<Seq<char>, CounterModel>,
}

impl StoreModel {
    /// The store of a location at which nothing has been created yet.
    pub open spec fn empty() -> StoreModel {
        StoreModel { applied: Seq::empty(), counters: Map::empty() }
    }

    /// The counter `id`, if the store holds it.
    pub open spec fn stats_of(self, id: Seq<char>) -> Option<CounterModel> {
        if self.counters.contains_key(id) {
            Some(self.counters[id])
        } else {
            None
        }
    }

    /// The counter `id`, or a fresh counter where the store holds none.
    pub open spec fn counter_or_fresh(self, id: Seq<char>) -> CounterModel {
        if self.counters.contains_key(id) {
            self.counters[id]
        } else {
            CounterModel::fresh()
        }
    }

    /// The value that a read of `id` returns: that of the counter, or 0.
    pub open spec fn value_of(self, id: Seq<char>) -> int {
        self.counter_or_fresh(id).value
    }

    /// The store after a read of `id`, which creates the counter if it is
    /// missing.
    pub open spec fn after_get(self, id: Seq<char>) -> StoreModel {
        StoreModel { counters: self.counters.insert(id, self.counter_or_fresh(id)), ..self }
    }

    /// The store after `id` was set to `value`: the value is replaced, the
    /// statistics are those from before, or those of a fresh counter.
    pub open spec fn after_set(self, id: Seq<char>, value: int) -> StoreModel {
        StoreModel {
            counters: self.counters.insert(id, self.counter_or_fresh(id).with_value(value)),
            ..self
        }
    }

    /// An increment of `id` by `amount` leaves a counter that the store can
    /// hold.
    pub open spec fn increment_fits(self, id: Seq<char>, amount: int) -> bool {
        self.counter_or_fresh(id).increment_fits(amount)
    }

    /// The store after `id` was incremented by `amount`.
    pub open spec fn after_increment(self, id: Seq<char>, amount: int) -> StoreModel {
        StoreModel {
            counters: self.counters.insert(id, self.counter_or_fresh(id).incremented(amount)),
            ..self
        }
    }

    /// The store after the increments `amounts` were applied to `id` one after
    /// the other.
    pub open spec fn after_increments(self, id: Seq<char>, amounts: Seq<int>) -> StoreModel
        decreases amounts.len(),
    {
        if amounts.len() == 0 {
            self
        } else {
            self.after_increments(id, amounts.drop_last()).after_increment(id, amounts.last())
        }
    }

    /// `listing` shows every counter of the store once, as its id and value,
    /// ascending by id.
    pub open spec fn is_listing(self, listing: Seq<(Seq<char>, i32)>) -> bool {
        is_listing_of(self.counters, listing)
    }

    /// The store after `id` was deleted.
    pub open spec fn after_delete(self, id: Seq<char>) -> StoreModel {
        StoreModel { counters: self.counters.remove(id), ..self }
    }

    /// The store after the upgrade scripts marked `migrations` were offered
    /// to it in their order: those not on record are applied and recorded.
    pub open spec fn after_migrations(self, migrations: Seq<i64>) -> StoreModel {
        StoreModel { applied: record_all(self.applied, migrations), ..self }
    }

    /// The store with the main counter created if it was missing.
    pub open spec fn with_main_counter(self) -> StoreModel {
        self.after_get(main_counter_id())
    }

    /// The store after the start-up sequence: upgrades, then the main counter.
    pub open spec fn bootstrapped(self, migrations: Seq<i64>) -> StoreModel {
        self.after_migrations(migrations).with_main_counter()
    }
}

/// `listing` shows every counter of `counters` once, as its id and value,
/// ascending by id.
pub open spec fn is_listing_of(
    counters: Map<Seq<char>, CounterModel>,
    listing: Seq<(Seq<char>, i32)>,
) -> bool {
    &&& forall|i: int|
        0 <= i < listing.len() ==> counters.contains_key((#[trigger] listing[i]).0)
            && counters[listing[i].0].value == listing[i].1
    &&& forall|id: Seq<char>|
        counters.contains_key(id) ==> exists|i: int|
            0 <= i < listing.len() && (#[trigger] listing[i]).0 == id
    &&& forall|i: int, j: int|
        0 <= i < j < listing.len() ==> id_before(
            (#[trigger] listing[i]).0,
            (#[trigger] listing[j]).0,
        )
}

/// The sum of `amounts`.
pub open spec fn sum_of(amounts: Seq<int>) -> int
    decreases amounts.len(),
{
    if amounts.len() == 0 {
        0
    } else {
        sum_of(amounts.drop_last()) + amounts.last()
    }
}

} // verus!
