//! A recorded doctor visit.

use vstd::prelude::*;

verus! {

/// One appointment: when, what for, and what was noted.
pub struct Appointment {
    pub date: String,
    pub notes: String,
    pub purpose: String,
}

} // verus!
