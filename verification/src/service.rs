//! The service in front of the store: a greeting, and the main counter read
//! and incremented.

use vstd::prelude::*;
use vstd::string::StringExecFns;
use crate::database::{Database, MAIN_COUNTER_ID};
use crate::model::{main_counter_id, StoreModel};

verus! {

/// The greeting for `name`.
pub open spec fn greeting(name: Seq<char>) -> Seq<char> {
    "Hello "@ + name + "!"@
}

/// Why a request was not carried out.
#[derive(Clone, Copy, Debug, PartialEq, Eq)]
pub enum ServiceError {
    /// The store cannot hold what the request would leave behind.
    Internal,
}

impl ServiceError {
    /// The text that goes to the caller with the error.
    pub fn message(&self) -> (text: String)
        ensures
            text@ == "Database error: counter out of range"@,
    {
        String::from_str("Database error: counter out of range")
    }
}

/// Greets `name`.
pub fn greet(name: &str) -> (message: String)
    ensures
        message@ == greeting(name@),
{
    let mut message = String::from_str("Hello ");
    message.append(name);
    message.append("!");
    message
}

/// The service: it owns the store that it serves from.
#[derive(Debug)]
pub struct HelloServiceImpl {
    db: Database,
}

impl View for HelloServiceImpl {
    type V = StoreModel;

    closed spec fn view(&self) -> StoreModel {
        self.db@
    }
}

impl HelloServiceImpl {
    /// A service that serves from `db`.
    pub fn new(db: Database) -> (service: HelloServiceImpl)
        ensures
            service@ == db@,
    {
        HelloServiceImpl { db }
    }

    /// Greets `name`. The store is not touched.
    pub fn say_hello(&self, name: &str) -> (message: String)
        ensures
            message@ == greeting(name@),
    {
        greet(name)
    }

    /// Reads the main counter.
    pub fn get_counter(&mut self) -> (value: i32)
        ensures
            value == old(self)@.value_of(main_counter_id()),
            final(self)@ == old(self)@.after_get(main_counter_id()),
    {
        self.db.get_counter(MAIN_COUNTER_ID)
    }

    /// Increments the main counter by `increment_by` and returns its new
    /// value. Where the store cannot hold the result, nothing changes and
    /// the caller gets an internal error.
    pub fn increment_counter(&mut self, increment_by: i32) -> (reply: Result<i32, ServiceError>)
        ensures
            match reply {
                Ok(value) => {
                    &&& old(self)@.increment_fits(main_counter_id(), increment_by as int)
                    &&& value == old(self)@.value_of(main_counter_id()) + increment_by
                    &&& final(self)@ == old(self)@.after_increment(
                        main_counter_id(),
                        increment_by as int,
                    )
                },
                Err(error) => {
                    &&& !old(self)@.increment_fits(main_counter_id(), increment_by as int)
                    &&& error == ServiceError::Internal
                    &&& final(self)@ == old(self)@
                },
            },
    {
        if self.db.can_increment(MAIN_COUNTER_ID, increment_by) {
            Ok(self.db.increment_counter(MAIN_COUNTER_ID, increment_by))
        } else {
            Err(ServiceError::Internal)
        }
    }
}

} // verus!
