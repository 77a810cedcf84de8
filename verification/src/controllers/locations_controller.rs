//! The routes of the locations: the list, one location, its history and its
//! residents.

use crate::calendar::date_format;
use crate::calendar::date_of_parsed;
use crate::calendar::parse_date;
use crate::calendar::parsed_date;
use crate::calendar::Date;
use crate::calendar::RangeParams;
use crate::controllers::timestamps_controller::FilterOpts;
use crate::database::db::location_history;
use crate::database::db::row_id;
use crate::entity::locations;
use crate::entity::locations::DEFAULT_LOCATION_LEVEL;
use crate::entity::residents;
use crate::entity::timestamps;
use crate::error::ServiceError;
use crate::history::first_per_resident;
use crate::history::latest_per_resident;
use crate::models::response::Reply;
use crate::models::response::STATUS_OK;
use crate::tables::has_location;
use crate::tables::located_at;
use crate::tables::residents_of;
use crate::store::Store;
use crate::tables::StoreView;
use vstd::prelude::*;
use vstd::string::StringExecFns;

verus! {

/// The parameters of a request for the history of one location over a range
/// of days.
#[derive(Debug, Clone, Copy, PartialEq, Eq, Structural)]
pub struct LocationRange {
    location_id: usize,
    start_date: Date,
    end_date: Date,
}

impl LocationRange {
    pub closed spec fn spec_location_id(self) -> usize {
        self.location_id
    }

    pub closed spec fn range(self) -> RangeParams {
        RangeParams { start_date: self.start_date, end_date: self.end_date }
    }

    pub fn new(location_id: usize, start_date: Date, end_date: Date) -> (r: Self)
        ensures
            r.spec_location_id() == location_id,
            r.range() == (RangeParams { start_date, end_date }),
    {
        LocationRange { location_id, start_date, end_date }
    }

    /// Reads the parameters from the path of a request. Each date is written
    /// as year, month and day with hyphens between them; a date that does not
    /// read is a validation failure.
    pub fn parse(location_id: usize, start: &str, end: &str) -> (r: Result<
        LocationRange,
        ServiceError,
    >)
        ensures
            match (
                date_of_parsed(parsed_date(start@, date_format())),
                date_of_parsed(parsed_date(end@, date_format())),
            ) {
                (Ok(start_date), Ok(end_date)) => r is Ok && r->Ok_0.spec_location_id()
                    == location_id && r->Ok_0.range() == (RangeParams { start_date, end_date }),
                _ => r == Err::<LocationRange, ServiceError>(ServiceError::Validation),
            },
    {
        let first = parse_date(start);
        let last = parse_date(end);
        match (first, last) {
            (Ok(start_date), Ok(end_date)) => Ok(
                LocationRange { location_id, start_date, end_date },
            ),
            _ => Err(ServiceError::Validation),
        }
    }

    pub fn location_id(&self) -> (id: usize)
        ensures
            id == self.spec_location_id(),
    {
        self.location_id
    }

    pub fn days(&self) -> (r: RangeParams)
        ensures
            r == self.range(),
    {
        RangeParams::new(self.start_date, self.end_date)
    }
}

/// Whether the residents of a location are those recorded there at present,
/// rather than those whose home it is.
#[derive(Debug, Clone, Copy, PartialEq, Eq, Structural)]
pub struct Params {
    pub current: Option<bool>,
}

/// The id of a location, as it stands in a request.
#[derive(Debug, Clone, Copy, PartialEq, Eq, Structural)]
pub struct Id {
    pub location_id: usize,
}

/// The message of a failed request about locations.
#[derive(Debug, PartialEq, Eq)]
pub struct LocationsError(pub String);

impl LocationsError {
    /// What is shown for the error.
    pub fn to_text(&self) -> (text: String)
        ensures
            text@ == "A validation error occured on the input: "@ + self.0@,
    {
        "A validation error occured on the input: ".to_owned().concat(self.0.as_str())
    }
}

/// All locations.
pub fn index(db: &Store) -> (r: Reply<locations::Model>)
    ensures
        r.is_done(STATUS_OK as int, "Location successfully retrieved"@, db@.locations),
{
    Reply::done(STATUS_OK, "Location successfully retrieved", db.list_locations())
}

/// The row under which a new location is stored: its id and name as given,
/// its level the one that locations get by default.
pub open spec fn stored_row(loc: locations::Model) -> locations::Model {
    locations::Model { id: loc.id, name: loc.name, level: DEFAULT_LOCATION_LEVEL }
}

/// Adds a location. An id that is taken is a conflict and changes nothing.
pub fn store(db: &mut Store, loc: locations::Model) -> (r: Reply<String>)
    requires
        old(db).wf(),
    ensures
        final(db).wf(),
        has_location(old(db)@.locations, loc.id as int) ==> r.is_refused(
            ServiceError::Conflict,
            "Error adding location"@,
        ) && final(db)@ == old(db)@,
        !has_location(old(db)@.locations, loc.id as int) ==> r.is_plain(
            STATUS_OK as int,
            "Location successfully added"@,
        ) && final(db)@ == (StoreView {
            locations: old(db)@.locations.push(stored_row(loc)),
            ..old(db)@
        }),
{
    let row = locations::Model { id: loc.id, name: loc.name, level: DEFAULT_LOCATION_LEVEL };
    match db.store_location(row) {
        Ok(_) => Reply::plain(STATUS_OK, "Location successfully added"),
        Err(e) => Reply::refused(e, "Error adding location"),
    }
}

/// The location with the id.
pub fn show(db: &Store, id: Id) -> (r: Reply<locations::Model>)
    requires
        db.wf(),
    ensures
        has_location(db@.locations, id.location_id as int) ==> r.is_done(
            STATUS_OK as int,
            "Location successfully retrieved"@,
            seq![db@.locations[located_at(db@.locations, id.location_id as int)]],
        ),
        !has_location(db@.locations, id.location_id as int) ==> r.is_refused(
            ServiceError::NotFound,
            "Error retrieving location"@,
        ),
{
    let found = match row_id(id.location_id) {
        Some(place) => db.get_location(place),
        None => Err(ServiceError::NotFound),
    };
    match found {
        Ok(row) => Reply::done_one(STATUS_OK, "Location successfully retrieved", row),
        Err(e) => Reply::refused(ServiceError::NotFound, "Error retrieving location"),
    }
}

/// The history of one location over a range of days, newest first.
pub fn show_location_timestamps_range(db: &Store, id: LocationRange) -> (r: Reply<
    timestamps::Model,
>)
    ensures
        r.is_done(
            STATUS_OK as int,
            "Timestamps successfully retrieved"@,
            location_history(db@, id.spec_location_id(), id.range()),
        ),
{
    let rows = match row_id(id.location_id()) {
        Some(place) => db.timestamps_for_location(place, Some(id.days()), id.days().start_date),
        None => Vec::new(),
    };
    Reply::done(STATUS_OK, "Timestamps successfully retrieved", rows)
}

/// What the tables answer to a request for the history of one location on
/// one day: its rows of that day, newest first, collapsed to the latest row
/// of each resident if that is asked for.
pub open spec fn location_day(tables: StoreView, id: usize, uni: FilterOpts, day: Date) -> Seq<
    timestamps::Model,
> {
    let rows = location_history(tables, id, RangeParams { start_date: day, end_date: day });
    if uni.wants_unique() {
        first_per_resident(rows)
    } else {
        rows
    }
}

/// The history of one location on the day `today`.
pub fn show_location_timestamps_on(db: &Store, id: Id, uni: FilterOpts, today: Date) -> (r:
    Reply<timestamps::Model>)
    ensures
        r.is_done(
            STATUS_OK as int,
            "Timestamps successfully retrieved"@,
            location_day(db@, id.location_id, uni, today),
        ),
{
    let result = match row_id(id.location_id) {
        Some(place) => db.timestamps_for_location(place, None, today),
        None => Vec::new(),
    };
    let unique = match uni.unique {
        Some(flag) => flag,
        None => false,
    };
    if unique {
        let res = latest_per_resident(&result);
        Reply::done(STATUS_OK, "Timestamps successfully retrieved", res)
    } else {
        Reply::done(STATUS_OK, "Timestamps successfully retrieved", result)
    }
}

/// Today's history of one location.
pub fn show_location_timestamps(db: &Store, id: Id, uni: FilterOpts) -> (r: Reply<
    timestamps::Model,
>)
    ensures
        exists|today: Date|
            today.wf() && r.is_done(
                STATUS_OK as int,
                "Timestamps successfully retrieved"@,
                #[trigger] location_day(db@, id.location_id, uni, today),
            ),
{
    let today = crate::calendar::today();
    show_location_timestamps_on(db, id, uni, today)
}

/// The residents of one location: those recorded there at present if
/// `current` is set and true, those whose home it is otherwise.
pub fn show_location_residents(db: &Store, id: Id, curr: Params) -> (r: Reply<
    residents::Model,
>)
    ensures
        r.is_done(
            STATUS_OK as int,
            "Residents successfully retrieved"@,
            if id.location_id <= i32::MAX {
                residents_of(db@.residents, id.location_id as i32, curr.current == Some(true))
            } else {
                Seq::empty()
            },
        ),
{
    let current = match curr.current {
        Some(flag) => flag,
        None => false,
    };
    let rows = match row_id(id.location_id) {
        Some(place) => db.residents_by_location(place, current),
        None => Vec::new(),
    };
    Reply::done(STATUS_OK, "Residents successfully retrieved", rows)
}

} // verus!
