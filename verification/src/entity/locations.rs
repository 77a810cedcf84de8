//! Locations: the areas of the facility that have a reader.

use vstd::prelude::*;

verus! {

/// The level given to a location stored without one.
pub const DEFAULT_LOCATION_LEVEL: i32 = 2;

/// One location. The `id` is the primary key and is assigned from outside.
#[derive(Debug, PartialEq, Eq)]
pub struct Model {
    pub id: i32,
    pub name: String,
    pub level: i32,
}

impl Clone for Model {
    fn clone(&self) -> (r: Self)
        ensures
            r == *self,
    {
        Model { id: self.id, name: self.name.clone(), level: self.level }
    }
}

impl Model {
    /// A location with the level that locations get where none is given.
    pub fn new(id: i32, name: String) -> (r: Model)
        ensures
            r == (Model { id, name, level: DEFAULT_LOCATION_LEVEL }),
    {
        Model { id, name, level: DEFAULT_LOCATION_LEVEL }
    }
}

} // verus!
