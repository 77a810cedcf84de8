//! Requests to the store and their answers. `query` takes one request,
//! carries it out on the tables and hands back the answer or the failure.

use crate::calendar::Date;
use crate::calendar::DateTime;
use crate::calendar::RangeParams;
use crate::entity::locations;
use crate::entity::locations::DEFAULT_LOCATION_LEVEL;
use crate::entity::residents;
use crate::entity::timestamps;
use crate::error::ServiceError;
use crate::history::Criteria;
use crate::models::locations::Location;
use crate::models::timestamps::PostTimestamp;
use crate::tables::enrolled_at;
use crate::tables::enrolment;
use crate::tables::has_location;
use crate::tables::history;
use crate::tables::is_enrolled;
use crate::tables::distinct_locations;
use crate::tables::load_fault;
use crate::tables::located_at;
use crate::tables::stamped;
use crate::tables::next_number;
use crate::tables::place_resolves;
use crate::tables::replacement;
use crate::tables::residents_of;
use crate::tables::scan_refusal;
use crate::store::Store;
use crate::tables::StoreView;
use vstd::prelude::*;

verus! {

/// A request to the store.
#[derive(Debug)]
pub enum Query<'a> {
    /// All residents.
    IndexResidents,
    /// The resident who wears the tag.
    ShowResident(&'a String),
    /// Enrol the resident.
    StoreResident(&'a residents::Model),
    /// Replace the row of the resident who wears the same tag.
    UpdateResident(&'a residents::Model),
    /// Remove the resident who wears the tag.
    DestroyResident(String),
    /// Today's history of the resident who wears the tag.
    ShowResidentTimestamps(String),
    /// The history of the resident who wears the tag, from the first day to
    /// the second.
    ShowResidentTimestampsRange(&'a String, &'a Date, &'a Date),
    /// The residents whose home is the location.
    ShowLocationResidents(usize),
    /// Record the resident at the location that the row names.
    UpdateResidentLocation(&'a residents::Model),
    /// All locations.
    IndexLocations,
    /// The location with the id.
    ShowLocation(usize),
    /// Store the location.
    StoreLocation(&'a Location),
    /// Today's history of the location.
    ShowLocationTimestamps(usize),
    /// The history of the location, from the first day to the second.
    ShowLocationTimestampsRange(usize, &'a Date, &'a Date),
    /// Today's history.
    IndexTimestamps,
    /// The history from the first day to the second.
    ShowTimestamps(&'a Date, &'a Date),
    /// Add the row to the history, under a new number and at the present
    /// moment.
    StoreTimestamp(&'a timestamps::Model),
    /// Add the locations of a fixture.
    Migrations(&'a Vec<Location>),
    /// Add the residents and the history of a fixture.
    SeedTestData(&'a Vec<residents::Model>, &'a Vec<PostTimestamp>),
}

/// The answer to a request.
#[derive(Debug, PartialEq)]
pub enum QueryResult {
    Resident(residents::Model),
    Residents(Vec<residents::Model>),
    TimeStamps(Vec<timestamps::Model>),
    Locations(Vec<locations::Model>),
    Location(locations::Model),
    Success,
    Failure,
    NotFound,
}

/// An answer with its rows as sequences.
pub enum Answer {
    Resident(residents::Model),
    Residents(Seq<residents::Model>),
    TimeStamps(Seq<timestamps::Model>),
    Locations(Seq<locations::Model>),
    Location(locations::Model),
    Success,
    Failure,
    NotFound,
}

impl View for QueryResult {
    type V = Answer;

    open spec fn view(&self) -> Answer {
        match self {
            QueryResult::Resident(row) => Answer::Resident(*row),
            QueryResult::Residents(rows) => Answer::Residents(rows@),
            QueryResult::TimeStamps(rows) => Answer::TimeStamps(rows@),
            QueryResult::Locations(rows) => Answer::Locations(rows@),
            QueryResult::Location(row) => Answer::Location(*row),
            QueryResult::Success => Answer::Success,
            QueryResult::Failure => Answer::Failure,
            QueryResult::NotFound => Answer::NotFound,
        }
    }
}

/// The range from the first day to the second.
pub open spec fn span(start: Date, end: Date) -> RangeParams {
    RangeParams { start_date: start, end_date: end }
}

/// The history of one resident over a range of days, newest first.
pub open spec fn resident_history(tables: StoreView, rfid: String, range: RangeParams) -> Seq<
    timestamps::Model,
> {
    history(tables.timestamps, Criteria { rfid: Some(rfid), location: None, range })
}

/// The history of the location with this id over a range of days, newest
/// first. An id beyond those that a row can hold names no location.
pub open spec fn location_history(tables: StoreView, id: usize, range: RangeParams) -> Seq<
    timestamps::Model,
> {
    if id <= i32::MAX {
        history(tables.timestamps, Criteria { rfid: None, location: Some(id as i32), range })
    } else {
        Seq::empty()
    }
}

/// The history of all residents over a range of days, newest first.
pub open spec fn whole_history(tables: StoreView, range: RangeParams) -> Seq<timestamps::Model> {
    history(tables.timestamps, Criteria { rfid: None, location: None, range })
}

/// The row under which a location is stored: with the level that locations
/// get where none is given.
pub open spec fn row_of(place: Location) -> locations::Model {
    locations::Model { id: place.id as i32, name: place.name, level: DEFAULT_LOCATION_LEVEL }
}

/// Why a location is not stored, if it is not.
pub open spec fn location_refusal(tables: StoreView, place: Location) -> Option<ServiceError> {
    if place.id > i32::MAX {
        Some(ServiceError::Validation)
    } else if has_location(tables.locations, place.id as int) {
        Some(ServiceError::Conflict)
    } else {
        None
    }
}

/// The row that a request to add to the history writes.
pub open spec fn new_row(tables: StoreView, given: timestamps::Model, now: DateTime) -> timestamps::Model {
    timestamps::Model {
        id: next_number(tables.timestamps) as i32,
        rfid: given.rfid,
        location: given.location,
        ts: now,
    }
}

/// Why a request is refused, if it is. A request that only reads is refused
/// when it asks for one row that is not there.
pub open spec fn refusal(tables: StoreView, query: Query) -> Option<ServiceError> {
    match query {
        Query::ShowResident(rfid) => if is_enrolled(tables.residents, rfid@) {
            None
        } else {
            Some(ServiceError::NotFound)
        },
        Query::StoreResident(row) => match enrolment(tables, *row) {
            Ok(_) => None,
            Err(e) => Some(e),
        },
        Query::UpdateResident(row) => match replacement(tables, *row) {
            Ok(_) => None,
            Err(e) => Some(e),
        },
        Query::DestroyResident(rfid) => if is_enrolled(tables.residents, rfid@) {
            None
        } else {
            Some(ServiceError::NotFound)
        },
        Query::UpdateResidentLocation(row) => if !is_enrolled(tables.residents, row.rfid@) {
            Some(ServiceError::NotFound)
        } else if !place_resolves(tables.locations, row.current_location as int) {
            Some(ServiceError::Validation)
        } else {
            None
        },
        Query::ShowLocation(id) => if has_location(tables.locations, id as int) {
            None
        } else {
            Some(ServiceError::NotFound)
        },
        Query::StoreLocation(place) => location_refusal(tables, *place),
        Query::StoreTimestamp(given) => scan_refusal(
            tables,
            PostTimestamp { rfid: given.rfid, location: given.location },
        ),
        Query::Migrations(places) => migration_fault(tables, places@),
        Query::SeedTestData(people, scans) => load_fault(tables, people@, scans@),
        _ => None,
    }
}

/// The answer to a request that is not refused.
pub open spec fn answer(tables: StoreView, query: Query, now: DateTime) -> Answer {
    match query {
        Query::IndexResidents => Answer::Residents(tables.residents),
        Query::ShowResident(rfid) => Answer::Resident(
            tables.residents[enrolled_at(tables.residents, rfid@)],
        ),
        Query::ShowResidentTimestamps(rfid) => Answer::TimeStamps(
            resident_history(tables, rfid, span(now.date, now.date)),
        ),
        Query::ShowResidentTimestampsRange(rfid, start, end) => Answer::TimeStamps(
            resident_history(tables, *rfid, span(*start, *end)),
        ),
        Query::ShowLocationResidents(id) => Answer::Residents(
            if id <= i32::MAX {
                residents_of(tables.residents, id as i32, false)
            } else {
                Seq::empty()
            },
        ),
        Query::IndexLocations => Answer::Locations(tables.locations),
        Query::ShowLocation(id) => Answer::Location(
            tables.locations[located_at(tables.locations, id as int)],
        ),
        Query::ShowLocationTimestamps(id) => Answer::TimeStamps(
            location_history(tables, id, span(now.date, now.date)),
        ),
        Query::ShowLocationTimestampsRange(id, start, end) => Answer::TimeStamps(
            location_history(tables, id, span(*start, *end)),
        ),
        Query::IndexTimestamps => Answer::TimeStamps(
            whole_history(tables, span(now.date, now.date)),
        ),
        Query::ShowTimestamps(start, end) => Answer::TimeStamps(
            whole_history(tables, span(*start, *end)),
        ),
        _ => Answer::Success,
    }
}

/// The tables after a request that is not refused. A request that only reads
/// leaves them as they are.
pub open spec fn tables_after(tables: StoreView, query: Query, now: DateTime) -> StoreView {
    match query {
        Query::StoreResident(row) => StoreView {
            residents: tables.residents.push(*row),
            ..tables
        },
        Query::UpdateResident(row) => StoreView {
            residents: tables.residents.update(enrolled_at(tables.residents, row.rfid@), *row),
            ..tables
        },
        Query::DestroyResident(rfid) => StoreView {
            residents: tables.residents.remove(enrolled_at(tables.residents, rfid@)),
            ..tables
        },
        Query::UpdateResidentLocation(row) => StoreView {
            residents: tables.residents.update(
                enrolled_at(tables.residents, row.rfid@),
                tables.residents[enrolled_at(tables.residents, row.rfid@)].moved_to(
                    row.current_location,
                ),
            ),
            ..tables
        },
        Query::StoreLocation(place) => StoreView {
            locations: tables.locations.push(row_of(*place)),
            ..tables
        },
        Query::StoreTimestamp(given) => StoreView {
            timestamps: tables.timestamps.push(new_row(tables, *given, now)),
            ..tables
        },
        Query::Migrations(places) => StoreView {
            locations: tables.locations + rows_of(places@),
            ..tables
        },
        Query::SeedTestData(people, scans) => StoreView {
            locations: tables.locations,
            residents: tables.residents + people@,
            timestamps: tables.timestamps + stamped(next_number(tables.timestamps), scans@, now),
        },
        _ => tables,
    }
}

/// The rows under which the locations of a fixture are stored.
pub open spec fn rows_of(places: Seq<Location>) -> Seq<locations::Model> {
    Seq::new(places.len(), |i: int| row_of(places[i]))
}

/// Why the locations of a fixture cannot be added to the tables, if they
/// cannot: an id that no row can hold is a validation failure, and otherwise
/// an id that is repeated or stored already is a conflict.
pub open spec fn migration_fault(tables: StoreView, places: Seq<Location>) -> Option<
    ServiceError,
> {
    if exists|i: int| 0 <= i < places.len() && (#[trigger] places[i]).id > i32::MAX {
        Some(ServiceError::Validation)
    } else if !distinct_locations(tables.locations + rows_of(places)) {
        Some(ServiceError::Conflict)
    } else {
        None
    }
}

/// Adds the locations of a fixture to the tables, all or none, each with the
/// level that locations get by default.
pub fn migrations(store: &mut Store, places: &Vec<Location>) -> (r: Result<(), ServiceError>)
    requires
        old(store).wf(),
    ensures
        final(store).wf(),
        migration_fault(old(store)@, places@) matches Some(e) ==> r == Err::<(), ServiceError>(e)
            && final(store)@ == old(store)@,
        migration_fault(old(store)@, places@) is None ==> r == Ok::<(), ServiceError>(())
            && final(store)@ == (StoreView {
            locations: old(store)@.locations + rows_of(places@),
            ..old(store)@
        }),
{
    let mut rows: Vec<locations::Model> = Vec::new();
    let mut i: usize = 0;
    while i < places.len()
        invariant
            i <= places.len(),
            forall|k: int| 0 <= k < i ==> (#[trigger] places@[k]).id <= i32::MAX,
            rows@ == rows_of(places@).take(i as int),
            store.wf(),
            store@ == old(store)@,
        decreases places.len() - i,
    {
        match row_id(places[i].id) {
            Some(id) => {
                rows.push(
                    locations::Model {
                        id,
                        name: places[i].name.clone(),
                        level: DEFAULT_LOCATION_LEVEL,
                    },
                );
            },
            None => {
                return Err(ServiceError::Validation);
            },
        }
        i = i + 1;
        proof {
            assert(rows@ =~= rows_of(places@).take(i as int));
        }
    }
    proof {
        assert(rows_of(places@).take(places.len() as int) == rows_of(places@));
    }
    store.load_locations(rows)
}

/// Adds the residents and the history of a fixture to the tables, all or
/// none. The history is a list of scans, which are written as they stand,
/// under the next numbers and at the moment `now`.
pub fn seed_test_data(
    store: &mut Store,
    people: &Vec<residents::Model>,
    scans: &Vec<PostTimestamp>,
    now: DateTime,
) -> (r: Result<(), ServiceError>)
    requires
        old(store).wf(),
    ensures
        final(store).wf(),
        load_fault(old(store)@, people@, scans@) matches Some(e) ==> r == Err::<(), ServiceError>(
            e,
        ) && final(store)@ == old(store)@,
        load_fault(old(store)@, people@, scans@) is None ==> r == Ok::<(), ServiceError>(())
            && final(store)@ == (StoreView {
            locations: old(store)@.locations,
            residents: old(store)@.residents + people@,
            timestamps: old(store)@.timestamps + stamped(
                next_number(old(store)@.timestamps),
                scans@,
                now,
            ),
        }),
{
    let people_owned = people.clone();
    let scans_owned = scans.clone();
    assert(people_owned@ =~= people@);
    assert(scans_owned@ =~= scans@);
    store.load_test_data(people_owned, scans_owned, now)
}

/// The id as a row holds it, if a row can hold it.
pub fn row_id(id: usize) -> (r: Option<i32>)
    ensures
        id <= i32::MAX ==> r == Some(id as i32),
        id > i32::MAX ==> r is None,
{
    if id <= 0x7fff_ffff {
        Some(id as i32)
    } else {
        None
    }
}

/// Carries out one request at the moment `now`. A request that is refused
/// changes nothing; one that only reads changes nothing either.
pub fn query(store: &mut Store, request: Query<'_>, now: DateTime) -> (r: Result<
    QueryResult,
    ServiceError,
>)
    requires
        old(store).wf(),
    ensures
        final(store).wf(),
        refusal(old(store)@, request) matches Some(e) ==> r == Err::<QueryResult, ServiceError>(e)
            && final(store)@ == old(store)@,
        refusal(old(store)@, request) is None ==> r is Ok && r->Ok_0@ == answer(
            old(store)@,
            request,
            now,
        ) && final(store)@ == tables_after(old(store)@, request, now),
{
    let today = RangeParams::single(now.date);
    match request {
        Query::ShowResident(id) => {
            let row = store.get_resident(id)?;
            Ok(QueryResult::Resident(row))
        },
        Query::IndexResidents => Ok(QueryResult::Residents(store.list_residents())),
        Query::StoreResident(resident) => {
            store.store_resident(resident.clone())?;
            Ok(QueryResult::Success)
        },
        Query::ShowResidentTimestampsRange(rfid, start, end) => {
            let range = RangeParams::new(*start, *end);
            Ok(QueryResult::TimeStamps(store.timestamps_for_resident(rfid, Some(range), now.date)))
        },
        Query::UpdateResident(resident) => {
            store.replace_resident(resident)?;
            Ok(QueryResult::Success)
        },
        Query::ShowLocationResidents(id) => {
            match row_id(id) {
                Some(place) => Ok(QueryResult::Residents(store.residents_by_location(place, false))),
                None => Ok(QueryResult::Residents(Vec::new())),
            }
        },
        Query::DestroyResident(id) => {
            store.delete_resident(&id)?;
            Ok(QueryResult::Success)
        },
        Query::ShowResidentTimestamps(rfid) => {
            Ok(QueryResult::TimeStamps(store.timestamps_for_resident(&rfid, Some(today), now.date)))
        },
        Query::UpdateResidentLocation(resident) => {
            store.set_resident_location(&resident.rfid, resident.current_location)?;
            Ok(QueryResult::Success)
        },
        Query::IndexLocations => Ok(QueryResult::Locations(store.list_locations())),
        Query::ShowLocation(id) => {
            match row_id(id) {
                Some(place) => {
                    let row = store.get_location(place)?;
                    Ok(QueryResult::Location(row))
                },
                None => {
                    proof {
                        lemma_ids_fit_rows(store@.locations, id as int);
                    }
                    Err(ServiceError::NotFound)
                },
            }
        },
        Query::StoreLocation(location) => {
            match row_id(location.id) {
                Some(place) => {
                    store.store_location(
                        locations::Model {
                            id: place,
                            name: location.name.clone(),
                            level: DEFAULT_LOCATION_LEVEL,
                        },
                    )?;
                    Ok(QueryResult::Success)
                },
                None => Err(ServiceError::Validation),
            }
        },
        Query::ShowLocationTimestampsRange(id, start, end) => {
            let range = RangeParams::new(*start, *end);
            match row_id(id) {
                Some(place) => Ok(
                    QueryResult::TimeStamps(
                        store.timestamps_for_location(place, Some(range), now.date),
                    ),
                ),
                None => Ok(QueryResult::TimeStamps(Vec::new())),
            }
        },
        Query::ShowLocationTimestamps(id) => {
            match row_id(id) {
                Some(place) => Ok(
                    QueryResult::TimeStamps(
                        store.timestamps_for_location(place, Some(today), now.date),
                    ),
                ),
                None => Ok(QueryResult::TimeStamps(Vec::new())),
            }
        },
        Query::IndexTimestamps => Ok(
            QueryResult::TimeStamps(store.timestamps_global(Some(today), false, now.date)),
        ),
        Query::ShowTimestamps(start, end) => {
            let range = RangeParams::new(*start, *end);
            Ok(QueryResult::TimeStamps(store.timestamps_global(Some(range), false, now.date)))
        },
        Query::StoreTimestamp(ts) => {
            store.append_row(&ts.rfid, ts.location, now)?;
            Ok(QueryResult::Success)
        },
        Query::Migrations(places) => {
            migrations(store, places)?;
            Ok(QueryResult::Success)
        },
        Query::SeedTestData(people, scans) => {
            seed_test_data(store, people, scans, now)?;
            Ok(QueryResult::Success)
        },
    }
}

/// The id of every stored location is one that a row can hold.
pub proof fn lemma_ids_fit_rows(places: Seq<locations::Model>, id: int)
    requires
        id > i32::MAX,
    ensures
        !has_location(places, id),
{
}

} // verus!
