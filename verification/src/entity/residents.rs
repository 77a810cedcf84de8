//! Residents: the people who wear a tag.

use vstd::prelude::*;

verus! {

/// The level given to a resident enrolled without one.
pub const DEFAULT_RESIDENT_LEVEL: i32 = 4;

/// One resident. The tag identifier `rfid` is the primary key.
#[derive(Debug, PartialEq, Eq)]
pub struct Model {
    pub rfid: String,
    pub name: String,
    pub doc: String,
    pub room: String,
    /// The home location.
    pub unit: i32,
    /// Where the resident is recorded at present; 0 when checked in nowhere.
    pub current_location: i32,
    pub level: i32,
}

impl Clone for Model {
    fn clone(&self) -> (r: Self)
        ensures
            r == *self,
    {
        Model {
            rfid: self.rfid.clone(),
            name: self.name.clone(),
            doc: self.doc.clone(),
            room: self.room.clone(),
            unit: self.unit,
            current_location: self.current_location,
            level: self.level,
        }
    }
}

impl Model {
    /// A resident at the given location, with the level that residents get
    /// where none is given.
    pub fn new(
        rfid: String,
        name: String,
        doc: String,
        room: String,
        unit: i32,
        current_location: i32,
    ) -> (r: Model)
        ensures
            r == (Model {
                rfid,
                name,
                doc,
                room,
                unit,
                current_location,
                level: DEFAULT_RESIDENT_LEVEL,
            }),
    {
        Model { rfid, name, doc, room, unit, current_location, level: DEFAULT_RESIDENT_LEVEL }
    }

    /// The same resident recorded at another location.
    pub open spec fn moved_to(self, location: i32) -> Model {
        Model { current_location: location, ..self }
    }

    /// Whether this is the resident who wears the tag.
    pub fn wears(&self, rfid: &String) -> (b: bool)
        ensures
            b == (self.rfid@ == rfid@),
    {
        self.rfid == *rfid
    }
}

/// The references that a resident's row takes part in.
#[derive(Clone, Copy, Debug, PartialEq, Eq, Structural)]
pub enum Relation {
    /// `current_location` names a location, unless it is the sentinel.
    Locations2,
    /// `unit` names a location.
    Locations1,
    /// The rows of the movement history name their resident by `rfid`.
    Timestamps,
}

} // verus!
