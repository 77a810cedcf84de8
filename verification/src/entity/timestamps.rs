//! The movement history: one row for each accepted scan.

use crate::calendar::DateTime;
use vstd::prelude::*;

verus! {

/// One movement. Rows are numbered in the order in which they were written.
#[derive(Debug, PartialEq, Eq)]
pub struct Model {
    pub id: i32,
    /// The resident who moved.
    pub rfid: String,
    /// Where the resident went; 0 for a return home.
    pub location: i32,
    /// When the scan was accepted.
    pub ts: DateTime,
}

impl Clone for Model {
    fn clone(&self) -> (r: Self)
        ensures
            r == *self,
    {
        Model { id: self.id, rfid: self.rfid.clone(), location: self.location, ts: self.ts }
    }
}

impl Model {
    pub fn new(id: i32, rfid: String, location: i32, ts: DateTime) -> (r: Model)
        ensures
            r == (Model { id, rfid, location, ts }),
    {
        Model { id, rfid, location, ts }
    }

    /// Whether the row belongs to the resident who wears the tag.
    pub fn belongs_to(&self, rfid: &String) -> (b: bool)
        ensures
            b == (self.rfid@ == rfid@),
    {
        self.rfid == *rfid
    }
}

} // verus!
