//! Requests that name or change a resident.

use crate::entity::residents::Model;
use crate::calendar::parse_date;
use crate::calendar::date_format;
use crate::calendar::date_of_parsed;
use crate::calendar::parsed_date;
use crate::calendar::Date;
use crate::error::ServiceError;
use vstd::string::StringExecFns;
use vstd::prelude::*;

verus! {

/// A partial update of a resident: a field that is given replaces the stored
/// one, a field that is left out keeps it.
#[derive(Debug, Clone, PartialEq, Default)]
pub struct UpdateResident {
    pub rfid: Option<String>,
    pub name: Option<String>,
    pub doc: Option<String>,
    pub room: Option<String>,
    pub unit: Option<usize>,
    pub current_location: Option<usize>,
    pub level: Option<usize>,
}

/// The number, where one is given, is one that a row can hold.
pub open spec fn fits_row(number: Option<usize>) -> bool {
    number matches Some(v) ==> v <= i32::MAX
}

/// The text given, or else the text stored.
pub open spec fn text_or(given: Option<String>, stored: String) -> String {
    match given {
        Some(text) => text,
        None => stored,
    }
}

/// The number given, or else the number stored.
pub open spec fn number_or(given: Option<usize>, stored: i32) -> i32 {
    match given {
        Some(v) => v as i32,
        None => stored,
    }
}

fn pick_text(given: &Option<String>, stored: &String) -> (r: String)
    ensures
        r == text_or(*given, *stored),
{
    match given {
        Some(text) => text.clone(),
        None => stored.clone(),
    }
}

fn pick_number(given: Option<usize>, stored: i32) -> (r: i32)
    requires
        fits_row(given),
    ensures
        r == number_or(given, stored),
{
    match given {
        Some(v) => v as i32,
        None => stored,
    }
}

fn number_fits(given: Option<usize>) -> (b: bool)
    ensures
        b == fits_row(given),
{
    match given {
        Some(v) => v <= 0x7fff_ffff,
        None => true,
    }
}

impl UpdateResident {
    /// Every number given is one that a row can hold.
    pub open spec fn fits(self) -> bool {
        fits_row(self.unit) && fits_row(self.current_location) && fits_row(self.level)
    }

    /// The stored row with each given field written over it.
    pub open spec fn merged(self, stored: Model) -> Model {
        Model {
            rfid: text_or(self.rfid, stored.rfid),
            name: text_or(self.name, stored.name),
            doc: text_or(self.doc, stored.doc),
            room: text_or(self.room, stored.room),
            unit: number_or(self.unit, stored.unit),
            current_location: number_or(self.current_location, stored.current_location),
            level: number_or(self.level, stored.level),
        }
    }

    /// Merges the update onto the stored row, field by field. A number too
    /// large for a row is a validation failure.
    pub fn apply(&self, stored: &Model) -> (r: Result<Model, ServiceError>)
        ensures
            self.fits() ==> r == Ok::<Model, ServiceError>(self.merged(*stored)),
            !self.fits() ==> r == Err::<Model, ServiceError>(ServiceError::Validation),
    {
        if !(number_fits(self.unit) && number_fits(self.current_location) && number_fits(
            self.level,
        )) {
            return Err(ServiceError::Validation);
        }
        Ok(
            Model {
                rfid: pick_text(&self.rfid, &stored.rfid),
                name: pick_text(&self.name, &stored.name),
                doc: pick_text(&self.doc, &stored.doc),
                room: pick_text(&self.room, &stored.room),
                unit: pick_number(self.unit, stored.unit),
                current_location: pick_number(self.current_location, stored.current_location),
                level: pick_number(self.level, stored.level),
            },
        )
    }
}

/// An update that gives no field changes nothing.
pub proof fn lemma_empty_update_keeps_row(update: UpdateResident, stored: Model)
    requires
        update.rfid is None,
        update.name is None,
        update.doc is None,
        update.room is None,
        update.unit is None,
        update.current_location is None,
        update.level is None,
    ensures
        update.fits(),
        update.merged(stored) == stored,
{
}

/// The tag of a resident, as it stands in a request.
#[derive(Debug, Clone, PartialEq, Eq)]
pub struct Rfid {
    pub rfid: String,
}

/// The kinds of failure that a request about residents can meet.
#[derive(Debug, Clone, PartialEq, Eq)]
pub enum ErrorType {
    Delete,
    Store,
    Update,
    NotFound,
    Validation,
    Database,
    Custom(String),
}

/// The message of a failed request about residents.
#[derive(Debug, PartialEq, Eq)]
pub struct ResidentsError(pub String);

/// The message that stands for a kind of failure.
pub open spec fn error_text(e: ErrorType) -> Seq<char> {
    match e {
        ErrorType::Delete => "Unable to delete Resident from database"@,
        ErrorType::Store => "Unable to create Resident in database"@,
        ErrorType::Update => "Unable to update Resident in database"@,
        ErrorType::NotFound => "No Resident found with id"@,
        ErrorType::Database => "An error occurred with your query, please check your inputs"@,
        ErrorType::Validation => "A validation error occured on the input"@,
        ErrorType::Custom(message) => "An error occurred: "@ + message@,
    }
}

impl ErrorType {
    /// The kind under which a failure of the service is reported.
    pub open spec fn spec_of(e: ServiceError) -> ErrorType {
        match e {
            ServiceError::NotFound => ErrorType::NotFound,
            ServiceError::Conflict => ErrorType::Store,
            ServiceError::Validation => ErrorType::Validation,
            ServiceError::StoreUnavailable => ErrorType::Database,
        }
    }

    /// The kind under which a failure of the service is reported.
    pub fn of(e: ServiceError) -> (r: ErrorType)
        ensures
            r == ErrorType::spec_of(e),
    {
        match e {
            ServiceError::NotFound => ErrorType::NotFound,
            ServiceError::Conflict => ErrorType::Store,
            ServiceError::Validation => ErrorType::Validation,
            ServiceError::StoreUnavailable => ErrorType::Database,
        }
    }
}

impl ResidentsError {
    pub fn new(message: String) -> (r: Self)
        ensures
            r.0 == message,
    {
        Self(message)
    }

    /// The error whose message stands for the kind of failure.
    pub fn get(e: ErrorType) -> (r: Self)
        ensures
            r.0@ == error_text(e),
    {
        match e {
            ErrorType::Delete => Self::new("Unable to delete Resident from database".to_owned()),
            ErrorType::Store => Self::new("Unable to create Resident in database".to_owned()),
            ErrorType::Update => Self::new("Unable to update Resident in database".to_owned()),
            ErrorType::NotFound => Self::new("No Resident found with id".to_owned()),
            ErrorType::Database => {
                Self::new(
                    "An error occurred with your query, please check your inputs".to_owned(),
                )
            },
            ErrorType::Validation => {
                Self::new("A validation error occured on the input".to_owned())
            },
            ErrorType::Custom(message) => Self::new(
                "An error occurred: ".to_owned().concat(message.as_str()),
            ),
        }
    }

    /// What is shown for the error.
    pub fn to_text(&self) -> (text: String)
        ensures
            text@ == "A validation error occured on the input: "@ + self.0@,
    {
        "A validation error occured on the input: ".to_owned().concat(self.0.as_str())
    }
}

/// The parameters of a request for the history of one resident over a range
/// of days.
#[derive(Debug, PartialEq, Eq)]
pub struct PathParams {
    pub rfid: String,
    pub start_date: Date,
    pub end_date: Date,
}

impl PathParams {
    /// Reads the parameters from the path of a request. Each date is written
    /// as year, month and day with hyphens between them; a date that does not
    /// read is a validation failure.
    pub fn parse(rfid: String, start: &str, end: &str) -> (r: Result<PathParams, ServiceError>)
        ensures
            match (
                date_of_parsed(parsed_date(start@, date_format())),
                date_of_parsed(parsed_date(end@, date_format())),
            ) {
                (Ok(start_date), Ok(end_date)) => r == Ok::<PathParams, ServiceError>(
                    PathParams { rfid, start_date, end_date },
                ),
                _ => r == Err::<PathParams, ServiceError>(ServiceError::Validation),
            },
    {
        let first = parse_date(start);
        let last = parse_date(end);
        path_from_ends(rfid, first, last)
    }
}

/// The parameters whose dates are the two given, once both have been read.
pub fn path_from_ends(
    rfid: String,
    first: Result<Date, ServiceError>,
    last: Result<Date, ServiceError>,
) -> (r: Result<PathParams, ServiceError>)
    ensures
        first is Ok && last is Ok ==> r == Ok::<PathParams, ServiceError>(
            PathParams { rfid, start_date: first->Ok_0, end_date: last->Ok_0 },
        ),
        first is Err || last is Err ==> r == Err::<PathParams, ServiceError>(
            ServiceError::Validation,
        ),
{
    match (first, last) {
        (Ok(start_date), Ok(end_date)) => Ok(PathParams { rfid, start_date, end_date }),
        _ => Err(ServiceError::Validation),
    }
}

} // verus!
