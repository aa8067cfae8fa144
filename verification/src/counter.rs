//! One counter: its value and the statistics kept beside it.

use vstd::prelude::*;

verus! {

/// What a counter holds, as mathematical integers.
#[verifier::ext_equal]
pub struct CounterModel {
    /// The current count.
    pub value: int,
    /// How many increments have been applied.
    pub total_increments: int,
    /// The sum of the amounts of those increments.
    pub increment_sum: int,
    /// The largest value that an increment has left behind, or 0 where that
    /// is larger.
    pub highest_value: int,
}

impl CounterModel {
    /// A counter as it is created: at 0, with no increment applied.
    pub open spec fn fresh() -> CounterModel {
        CounterModel { value: 0, total_increments: 0, increment_sum: 0, highest_value: 0 }
    }

    /// The mean of the amounts of the increments applied, 0 where none was.
    pub open spec fn average_increment(self) -> real {
        if self.total_increments == 0 {
            0 as real
        } else {
            (self.increment_sum as real) / (self.total_increments as real)
        }
    }

    /// The counter with its value replaced and its statistics untouched.
    pub open spec fn with_value(self, value: int) -> CounterModel {
        CounterModel { value, ..self }
    }

    /// The counter after one increment by `amount`.
    pub open spec fn incremented(self, amount: int) -> CounterModel {
        let value = self.value + amount;
        CounterModel {
            value,
            total_increments: self.total_increments + 1,
            increment_sum: self.increment_sum + amount,
            highest_value: if self.highest_value >= value {
                self.highest_value
            } else {
                value
            },
        }
    }

    /// The counter after an increment by `amount` can still be held in a
    /// [`CounterStats`].
    pub open spec fn increment_fits(self, amount: int) -> bool {
        &&& i32::MIN <= self.value + amount <= i32::MAX
        &&& self.total_increments < i32::MAX
        &&& i64::MIN <= self.increment_sum + amount <= i64::MAX
    }
}

/// A counter's value and statistics in machine integers.
#[derive(Clone, Copy, Debug, PartialEq, Eq)]
pub struct CounterStats {
    /// The current count.
    pub value: i32,
    /// How many increments have been applied.
    pub total_increments: i32,
    /// The sum of the amounts of those increments.
    pub increment_sum: i64,
    /// The largest value that an increment has left behind, or 0 where that
    /// is larger.
    pub highest_value: i32,
}

impl View for CounterStats {
    type V = CounterModel;

    open spec fn view(&self) -> CounterModel {
        CounterModel {
            value: self.value as int,
            total_increments: self.total_increments as int,
            increment_sum: self.increment_sum as int,
            highest_value: self.highest_value as int,
        }
    }
}

impl CounterStats {
    /// A counter as it is created: at 0, with no increment applied.
    pub fn new() -> (stats: CounterStats)
        ensures
            stats@ == CounterModel::fresh(),
    {
        CounterStats { value: 0, total_increments: 0, increment_sum: 0, highest_value: 0 }
    }

    /// The counter that a look-up found, or a fresh one where it found none.
    pub fn or_new(found: Option<CounterStats>) -> (stats: CounterStats)
        ensures
            stats@ == (match found {
                Some(held) => held@,
                None => CounterModel::fresh(),
            }),
    {
        match found {
            Some(held) => held,
            None => CounterStats::new(),
        }
    }

    /// Replaces the value and leaves the statistics as they are.
    pub fn with_value(self, value: i32) -> (stats: CounterStats)
        ensures
            stats@ == self@.with_value(value as int),
    {
        CounterStats { value, ..self }
    }

    /// Tells whether an increment by `amount` can be applied without leaving
    /// the range of a field.
    pub fn can_increment(self, amount: i32) -> (fits: bool)
        ensures
            fits == self@.increment_fits(amount as int),
    {
        let value: i64 = self.value as i64 + amount as i64;
        let sum: i128 = self.increment_sum as i128 + amount as i128;
        i32::MIN as i64 <= value && value <= i32::MAX as i64 && self.total_increments < i32::MAX
            && i64::MIN as i128 <= sum && sum <= i64::MAX as i128
    }

    /// Applies one increment by `amount`: the value grows by it, one more
    /// increment is counted, the amount joins the sum, and the highest value
    /// rises to the new value where that is larger.
    pub fn incremented(self, amount: i32) -> (stats: CounterStats)
        requires
            self@.increment_fits(amount as int),
        ensures
            stats@ == self@.incremented(amount as int),
    {
        let value: i32 = self.value + amount;
        CounterStats {
            value,
            total_increments: self.total_increments + 1,
            increment_sum: self.increment_sum + amount as i64,
            highest_value: if self.highest_value >= value {
                self.highest_value
            } else {
                value
            },
        }
    }
}

} // verus!
