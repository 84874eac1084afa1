//! The record of a request that was served.

use vstd::prelude::*;

verus! {

/// A stored request record. Times are in milliseconds.
#[derive(Debug, PartialEq, Eq)]
pub struct Request {
    pub _id: String,
    pub time_sent: u128,
    pub time_responded: u128,
    pub time_diff: u128,
    pub status_code: String,
}

/// A request record as it is handed to the store.
#[derive(Debug, PartialEq, Eq)]
pub struct InsertRequest {
    pub _id: String,
    pub time_sent: u128,
    pub time_responded: u128,
    pub time_diff: u128,
    pub status_code: String,
}

} // verus!
