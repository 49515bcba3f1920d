//! Sump events: one row per change to the sump pump.
use vstd::prelude::*;

use crate::calendar::DateTime;

verus! {

pub struct SumpEvent {
    pub id: i32,
    pub kind: String,
    pub info: String,
    pub created_at: DateTime,
}

/// The columns of a sump event about to be inserted.
pub struct NewSumpEvent {
    pub kind: String,
    pub info: String,
}

} // verus!
