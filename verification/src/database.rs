//! The store of named counters.
//!
//! A [`Database`] keeps its counters and the record of its schema upgrades in
//! memory. Every operation is specified by the function of the same purpose
//! on [`StoreModel`], the store as a mathematical value.

use vstd::prelude::*;
use crate::counter::CounterStats;
use crate::migration::MigrationLog;
use crate::model::{main_counter_id, StoreModel};
use crate::table::Table;

verus! {

/// The id of the main counter, which exists once a store has been opened.
pub const MAIN_COUNTER_ID: &'static str = "main_counter";

/// A store of named counters.
#[derive(Debug)]
pub struct Database {
    /// The schema upgrades applied.
    log: MigrationLog,
    /// The counters.
    counters: Table,
}

impl View for Database {
    type V = StoreModel;

    closed spec fn view(&self) -> StoreModel {
        StoreModel { applied: self.log@, counters: self.counters@ }
    }
}

impl Database {
    /// Opens the store of a location and makes it ready for use.
    ///
    /// `stored` is what the location holds, `None` where nothing has been
    /// created there yet; `migrations` are the markers of the upgrade scripts
    /// at hand, in the order in which they are to be applied. The store is
    /// created if it is missing, the scripts that are not on record are
    /// applied, each once, and the main counter is created if it is missing.
    pub fn connect(stored: Option<Database>, migrations: &Vec<i64>) -> (db: Database)
        ensures
            db@ == (match stored {
                Some(found) => found@,
                None => StoreModel::empty(),
            }).bootstrapped(migrations@),
            db@.counters.contains_key(main_counter_id()),
            db@.applied.no_duplicates(),
    {
        let mut db = match stored {
            Some(found) => found,
            None => Database { log: MigrationLog::new(), counters: Table::new() },
        };
        db.apply_migrations(migrations);
        db.ensure_main_counter();
        db
    }

    /// Applies the upgrade scripts that are not on record yet and records
    /// them.
    fn apply_migrations(&mut self, migrations: &Vec<i64>)
        ensures
            final(self)@ == old(self)@.after_migrations(migrations@),
            final(self)@.applied.no_duplicates(),
    {
        self.log.record(migrations);
    }

    /// Creates the main counter if the store does not hold it.
    fn ensure_main_counter(&mut self)
        ensures
            final(self)@ == old(self)@.with_main_counter(),
    {
        let _ = self.get_counter(MAIN_COUNTER_ID);
    }

    /// Reads the counter `id`. A counter that is missing is created at 0.
    pub fn get_counter(&mut self, id: &str) -> (value: i32)
        ensures
            value == old(self)@.value_of(id@),
            final(self)@ == old(self)@.after_get(id@),
    {
        let found = self.counters.get(id);
        let counter = CounterStats::or_new(found);
        if found.is_none() {
            self.counters.put(id, counter);
        }
        counter.value
    }

    /// Sets the counter `id` to `value`, creating it if it is missing. The
    /// statistics of the counter stay as they are.
    pub fn set_counter(&mut self, id: &str, value: i32)
        ensures
            final(self)@ == old(self)@.after_set(id@, value as int),
    {
        let current = CounterStats::or_new(self.counters.get(id));
        self.counters.put(id, current.with_value(value));
    }

    /// Tells whether `increment_counter` may be called with `id` and
    /// `amount`: whether the counter that the increment leaves can be held.
    pub fn can_increment(&self, id: &str, amount: i32) -> (fits: bool)
        ensures
            fits == self@.increment_fits(id@, amount as int),
    {
        CounterStats::or_new(self.counters.get(id)).can_increment(amount)
    }

    /// Increments the counter `id` by `amount` and returns its new value. A
    /// counter that is missing counts from 0. The statistics of the counter
    /// follow: one more increment, the amount added to the sum, the highest
    /// value raised to the new value where that is larger.
    pub fn increment_counter(&mut self, id: &str, amount: i32) -> (new_value: i32)
        requires
            old(self)@.increment_fits(id@, amount as int),
        ensures
            new_value == old(self)@.value_of(id@) + amount,
            final(self)@ == old(self)@.after_increment(id@, amount as int),
    {
        let next = CounterStats::or_new(self.counters.get(id)).incremented(amount);
        self.counters.put(id, next);
        next.value
    }

    /// All counters as pairs of id and value, ascending by id.
    pub fn list_counters(&self) -> (listing: Vec<(String, i32)>)
        ensures
            self@.is_listing(listing.deep_view()),
    {
        self.counters.listing()
    }

    /// The value and statistics of the counter `id`, or `None` where the
    /// store does not hold it. Nothing is created.
    pub fn get_counter_stats(&self, id: &str) -> (stats: Option<CounterStats>)
        ensures
            match stats {
                Some(found) => self@.stats_of(id@) == Some(found@),
                None => self@.stats_of(id@) is None,
            },
    {
        self.counters.get(id)
    }

    /// Deletes the counter `id` and tells whether the store held it.
    pub fn delete_counter(&mut self, id: &str) -> (existed: bool)
        ensures
            existed == old(self)@.counters.contains_key(id@),
            final(self)@ == old(self)@.after_delete(id@),
    {
        self.counters.remove(id)
    }

    /// The markers of the schema upgrades applied, oldest first. None stands
    /// twice: each upgrade was applied once.
    pub fn applied_migrations(&self) -> (applied: Vec<i64>)
        ensures
            applied@ == self@.applied,
            applied@.no_duplicates(),
    {
        self.log.versions()
    }
}

} // verus!
