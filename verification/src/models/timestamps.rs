//! Scans as they arrive, and what an accepted scan hands back.

use crate::entity::residents;
use crate::entity::timestamps;
use vstd::prelude::*;

verus! {

/// A scan: the tag that was read and the location of the reader.
#[derive(Debug, PartialEq, Eq)]
pub struct PostTimestamp {
    pub rfid: String,
    pub location: i32,
}

impl Clone for PostTimestamp {
    fn clone(&self) -> (r: Self)
        ensures
            r == *self,
    {
        PostTimestamp { rfid: self.rfid.clone(), location: self.location }
    }
}

impl PostTimestamp {
    pub fn new(rfid: String, location: i32) -> (r: Self)
        ensures
            r == (PostTimestamp { rfid, location }),
    {
        PostTimestamp { rfid, location }
    }
}

/// The outcome of an accepted scan: the resident as updated and the row that
/// was added to the movement history.
#[derive(Debug, PartialEq, Eq)]
pub struct ResidentTimestamp {
    pub resident: residents::Model,
    pub timestamp: timestamps::Model,
}

impl Clone for ResidentTimestamp {
    fn clone(&self) -> (r: Self)
        ensures
            r == *self,
    {
        ResidentTimestamp { resident: self.resident.clone(), timestamp: self.timestamp.clone() }
    }
}

impl ResidentTimestamp {
    pub fn new(resident: residents::Model, timestamp: timestamps::Model) -> (r: Self)
        ensures
            r == (ResidentTimestamp { resident, timestamp }),
    {
        Self { resident, timestamp }
    }
}

} // verus!
