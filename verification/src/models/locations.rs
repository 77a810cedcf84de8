//! Locations as readers and clients name them, and the envelope in which
//! they are handed out.

use crate::error::ServiceError;
use vstd::prelude::*;
use vstd::string::StringExecFns;

verus! {

/// The id of the reader's location where none is configured.
pub const DEFAULT_READER_ID: usize = 14;

/// A location by id and name.
#[derive(Debug, Default, Eq, PartialEq)]
pub struct Location {
    pub id: usize,
    pub name: String,
}

impl Clone for Location {
    fn clone(&self) -> (r: Self)
        ensures
            r == *self,
    {
        Location { id: self.id, name: self.name.clone() }
    }
}

/// The name of the reader's location where none is configured.
pub open spec fn default_reader_name() -> Seq<char> {
    "DELTA UNIT"@
}

impl Location {
    pub fn new(id: usize, name: String) -> (r: Self)
        ensures
            r == (Location { id, name }),
    {
        Self { id, name }
    }

    /// The location of this reader, from what its environment configures.
    /// The id is read from the text of the setting where it is set, and is
    /// location 14 where it is not; the name is the one set, or that of the
    /// Delta unit. A setting of the id that is no number, or a number beyond
    /// those of this machine, is a validation failure.
    pub fn get_env(id: Option<String>, name: Option<String>) -> (r: Result<Self, ServiceError>)
        ensures
            reader_fault(reading_of(id)) ==> r == Err::<Location, ServiceError>(
                ServiceError::Validation,
            ),
            !reader_fault(reading_of(id)) ==> r is Ok && r->Ok_0.id == reader_id(reading_of(id))
                && r->Ok_0.name@ == reader_name(name),
    {
        let read = match id {
            Some(text) => Some(parse_number(text.as_str())),
            None => None,
        };
        reader_location(read, name)
    }

    /// What is shown for the location.
    pub fn to_text(&self) -> (text: String)
        ensures
            text@ == "Location: "@ + self.name@,
    {
        "Location: ".to_owned().concat(self.name.as_str())
    }
}

/// The number that the text of a setting reads as, or `None` where it
/// reads as none.
pub uninterp spec fn parsed_number(text: Seq<char>) -> Option<u64>;

/// What the setting of the reader's id reads as, where it is set.
pub open spec fn reading_of(id: Option<String>) -> Option<Option<u64>> {
    match id {
        Some(text) => Some(parsed_number(text@)),
        None => None,
    }
}

/// `str::parse::<u64>`. The result depends on the text alone: the number
/// that `parsed_number` names, or `None` where the text is not read as a
/// number.
#[verifier::external_body]
fn parse_number(text: &str) -> (r: Option<u64>)
    ensures
        r == parsed_number(text@),
{
    text.parse::<u64>().ok()
}

/// The setting of the reader's id, where it is set, reads as no number or
/// as one beyond those of this machine.
pub open spec fn reader_fault(read: Option<Option<u64>>) -> bool {
    match read {
        None => false,
        Some(Some(n)) => n > usize::MAX,
        Some(None) => true,
    }
}

/// The id of the reader's location: the number set, or 14 where none is.
pub open spec fn reader_id(read: Option<Option<u64>>) -> usize {
    match read {
        Some(Some(n)) => n as usize,
        _ => DEFAULT_READER_ID,
    }
}

/// The name of the reader's location: the name set, or that of the Delta
/// unit where none is.
pub open spec fn reader_name(name: Option<String>) -> Seq<char> {
    match name {
        Some(text) => text@,
        None => default_reader_name(),
    }
}

/// The location of the reader, given what the setting of its id reads as
/// (where it is set) and the setting of its name (where it is set).
pub fn reader_location(read: Option<Option<u64>>, name: Option<String>) -> (r: Result<
    Location,
    ServiceError,
>)
    ensures
        reader_fault(read) ==> r == Err::<Location, ServiceError>(ServiceError::Validation),
        !reader_fault(read) ==> r is Ok && r->Ok_0.id == reader_id(read) && r->Ok_0.name@
            == reader_name(name),
{
    let name = match name {
        Some(text) => text,
        None => "DELTA UNIT".to_owned(),
    };
    match read {
        None => Ok(Location { id: DEFAULT_READER_ID, name }),
        Some(Some(n)) => if n <= usize::MAX as u64 {
            Ok(Location { id: n as usize, name })
        } else {
            Err(ServiceError::Validation)
        },
        Some(None) => Err(ServiceError::Validation),
    }
}

/// The envelope of a response about locations.
#[derive(Debug, Eq, PartialEq)]
pub struct LocationsResponse {
    pub success: bool,
    pub message: String,
    pub data: Option<Vec<Location>>,
}

impl LocationsResponse {
    pub fn from_success(message: &str) -> (r: Self)
        ensures
            r.success,
            r.message@ == message@,
            r.data is None,
    {
        Self { success: true, message: message.to_owned(), data: None }
    }

    pub fn from_error(message: &str) -> (r: Self)
        ensures
            !r.success,
            r.message@ == message@,
            r.data is None,
    {
        Self { success: false, message: message.to_owned(), data: None }
    }

    pub fn from_locations(locations: Vec<Location>) -> (r: Self)
        ensures
            r.success,
            r.message@ == "Locations successfully retrieved"@,
            r.data == Some(locations),
    {
        Self {
            success: true,
            message: "Locations successfully retrieved".to_owned(),
            data: Some(locations),
        }
    }

    pub fn from_location(location: Location) -> (r: Self)
        ensures
            r.success,
            r.message@ == "Location successfully retrieved"@,
            r.data matches Some(rows) && rows@ == seq![location],
    {
        let mut rows: Vec<Location> = Vec::new();
        rows.push(location);
        Self {
            success: true,
            message: "Location successfully retrieved".to_owned(),
            data: Some(rows),
        }
    }
}

} // verus!
