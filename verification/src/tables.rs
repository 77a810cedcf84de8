//! The tables of the service as sequences of rows: what it means for them
//! to be well formed, what each request does to them, and the checks that
//! tell sound rows from unsound ones.

use crate::calendar::Date;
use crate::calendar::DateTime;
use crate::calendar::RangeParams;
use crate::entity::locations;
use crate::entity::residents::Relation;
use crate::entity::residents;
use crate::entity::timestamps;
use crate::error::ServiceError;
use crate::history::Criteria;
use crate::history::first_per_resident;
use crate::history::has_resident;
use crate::history::is_newest_first;
use crate::history::lemma_first_per_resident_is_latest;
use crate::history::lemma_first_per_resident_rows;
use crate::history::lemma_newest_first;
use crate::history::lemma_selected_rows;
use crate::history::newest_first;
use crate::history::selected;
use crate::models::residents::UpdateResident;
use crate::models::timestamps::PostTimestamp;
use crate::models::timestamps::ResidentTimestamp;
use crate::toggle::toggled;
use vstd::prelude::*;

verus! {

/// Some location has this id.
pub open spec fn has_location(places: Seq<locations::Model>, id: int) -> bool {
    exists|i: int| 0 <= i < places.len() && (#[trigger] places[i]).id == id
}

/// The place in the table of the location with this id.
pub open spec fn located_at(places: Seq<locations::Model>, id: int) -> int {
    choose|i: int| 0 <= i < places.len() && (#[trigger] places[i]).id == id
}

/// Some resident wears this tag.
pub open spec fn is_enrolled(people: Seq<residents::Model>, tag: Seq<char>) -> bool {
    exists|i: int| 0 <= i < people.len() && (#[trigger] people[i]).rfid@ == tag
}

/// The place in the table of the resident who wears this tag.
pub open spec fn enrolled_at(people: Seq<residents::Model>, tag: Seq<char>) -> int {
    choose|i: int| 0 <= i < people.len() && (#[trigger] people[i]).rfid@ == tag
}

/// The id is the sentinel or that of a location.
pub open spec fn place_resolves(places: Seq<locations::Model>, id: int) -> bool {
    id == 0 || has_location(places, id)
}

/// The resident's home is a location, and where they are recorded is the
/// sentinel or a location.
pub open spec fn resident_resolves(places: Seq<locations::Model>, person: residents::Model) -> bool {
    has_location(places, person.unit as int) && place_resolves(
        places,
        person.current_location as int,
    )
}

/// No two locations share an id.
pub open spec fn distinct_locations(places: Seq<locations::Model>) -> bool {
    forall|i: int, j: int|
        0 <= i < j < places.len() ==> (#[trigger] places[i]).id != (#[trigger] places[j]).id
}

/// No two residents share a tag.
pub open spec fn distinct_residents(people: Seq<residents::Model>) -> bool {
    forall|i: int, j: int|
        0 <= i < j < people.len() ==> (#[trigger] people[i]).rfid@ != (#[trigger] people[j]).rfid@
}

/// The rows of the history carry ascending numbers, from 1 on.
pub open spec fn numbered(rows: Seq<timestamps::Model>) -> bool {
    &&& forall|i: int| 0 <= i < rows.len() ==> (#[trigger] rows[i]).id >= 1
    &&& forall|i: int, j: int|
        0 <= i < j < rows.len() ==> (#[trigger] rows[i]).id < (#[trigger] rows[j]).id
}

/// The number that the next row of the history gets.
pub open spec fn next_number(rows: Seq<timestamps::Model>) -> int {
    if rows.len() == 0 {
        1
    } else {
        rows.last().id + 1
    }
}

/// The three tables as sequences of rows, in the order of writing.
pub struct StoreView {
    pub locations: Seq<locations::Model>,
    pub residents: Seq<residents::Model>,
    pub timestamps: Seq<timestamps::Model>,
}

impl StoreView {
    /// What holds of the tables at all times.
    pub open spec fn wf(self) -> bool {
        &&& distinct_locations(self.locations)
        &&& distinct_residents(self.residents)
        &&& numbered(self.timestamps)
        &&& forall|i: int|
            0 <= i < self.residents.len() ==> resident_resolves(
                self.locations,
                #[trigger] self.residents[i],
            )
        &&& forall|i: int|
            0 <= i < self.timestamps.len() ==> place_resolves(
                self.locations,
                (#[trigger] self.timestamps[i]).location as int,
            )
    }
}

/// What a relation asks of the tables.
pub open spec fn relation_kept(tables: StoreView, relation: Relation) -> bool {
    match relation {
        Relation::Locations1 => forall|i: int|
            0 <= i < tables.residents.len() ==> has_location(
                tables.locations,
                (#[trigger] tables.residents[i]).unit as int,
            ),
        Relation::Locations2 => forall|i: int|
            0 <= i < tables.residents.len() ==> place_resolves(
                tables.locations,
                (#[trigger] tables.residents[i]).current_location as int,
            ),
        Relation::Timestamps => forall|i: int|
            0 <= i < tables.timestamps.len() ==> is_enrolled(
                tables.residents,
                (#[trigger] tables.timestamps[i]).rfid@,
            ),
    }
}

/// In well-formed tables the home of every resident is a location, and where
/// each is recorded is the sentinel or a location. Every operation of the
/// store keeps the tables well formed, so this holds after seeding and after
/// every request.
pub proof fn lemma_references_resolve(tables: StoreView)
    requires
        tables.wf(),
    ensures
        relation_kept(tables, Relation::Locations1),
        relation_kept(tables, Relation::Locations2),
        forall|i: int|
            0 <= i < tables.residents.len() ==> has_location(
                tables.locations,
                (#[trigger] tables.residents[i]).unit as int,
            ) && (tables.residents[i].current_location == 0 || has_location(
                tables.locations,
                tables.residents[i].current_location as int,
            )),
{
    assert forall|i: int| 0 <= i < tables.residents.len() implies has_location(
        tables.locations,
        (#[trigger] tables.residents[i]).unit as int,
    ) && place_resolves(tables.locations, tables.residents[i].current_location as int) by {
        assert(resident_resolves(tables.locations, tables.residents[i]));
    }
}

/// Where the location with this id stands in the table, if it is there.
pub fn find_location(places: &Vec<locations::Model>, id: i32) -> (at: Option<usize>)
    ensures
        at is Some <==> has_location(places@, id as int),
        at matches Some(i) ==> i < places.len() && places@[i as int].id == id && forall|k: int|
            0 <= k < i ==> (#[trigger] places@[k]).id != id,
        at is Some && distinct_locations(places@) ==> at->Some_0 as int == located_at(
            places@,
            id as int,
        ),
{
    let mut i: usize = 0;
    while i < places.len()
        invariant
            i <= places.len(),
            forall|k: int| 0 <= k < i ==> (#[trigger] places@[k]).id != id,
        decreases places.len() - i,
    {
        if places[i].id == id {
            return Some(i);
        }
        i = i + 1;
    }
    None
}

/// Where the resident who wears the tag stands in the table, if enrolled.
pub fn find_resident(people: &Vec<residents::Model>, rfid: &String) -> (at: Option<usize>)
    ensures
        at is Some <==> is_enrolled(people@, rfid@),
        at matches Some(i) ==> i < people.len() && people@[i as int].rfid@ == rfid@ && forall|
            k: int,
        | 0 <= k < i ==> (#[trigger] people@[k]).rfid@ != rfid@,
        at is Some && distinct_residents(people@) ==> at->Some_0 as int == enrolled_at(
            people@,
            rfid@,
        ),
{
    let mut i: usize = 0;
    while i < people.len()
        invariant
            i <= people.len(),
            forall|k: int| 0 <= k < i ==> (#[trigger] people@[k]).rfid@ != rfid@,
        decreases people.len() - i,
    {
        if people[i].wears(rfid) {
            return Some(i);
        }
        i = i + 1;
    }
    None
}

/// Whether the id is the sentinel or that of a location.
pub fn resolves(places: &Vec<locations::Model>, id: i32) -> (b: bool)
    ensures
        b == place_resolves(places@, id as int),
{
    id == 0 || find_location(places, id).is_some()
}

/// Whether a resident counts for a location: by where they are recorded at
/// present, or by their home.
pub open spec fn stays_at(person: residents::Model, location: i32, current: bool) -> bool {
    if current {
        person.current_location == location
    } else {
        person.unit == location
    }
}

/// The residents of one location, in the order of the table.
pub open spec fn residents_of(people: Seq<residents::Model>, location: i32, current: bool) -> Seq<
    residents::Model,
> {
    people.filter(|person: residents::Model| stays_at(person, location, current))
}

/// What becomes of a request to enrol a resident.
pub open spec fn enrolment(tables: StoreView, person: residents::Model) -> Result<
    (),
    ServiceError,
> {
    if is_enrolled(tables.residents, person.rfid@) {
        Err(ServiceError::Conflict)
    } else if !resident_resolves(tables.locations, person) {
        Err(ServiceError::Validation)
    } else {
        Ok(())
    }
}

/// What becomes of a request to change the resident who wears the tag.
pub open spec fn revision(tables: StoreView, tag: Seq<char>, update: UpdateResident) -> Result<
    residents::Model,
    ServiceError,
> {
    if !is_enrolled(tables.residents, tag) {
        Err(ServiceError::NotFound)
    } else if !update.fits() {
        Err(ServiceError::Validation)
    } else {
        let changed = update.merged(tables.residents[enrolled_at(tables.residents, tag)]);
        if changed.rfid@ != tag && is_enrolled(tables.residents, changed.rfid@) {
            Err(ServiceError::Conflict)
        } else if !resident_resolves(tables.locations, changed) {
            Err(ServiceError::Validation)
        } else {
            Ok(changed)
        }
    }
}

/// What becomes of a request to replace the row of a resident.
pub open spec fn replacement(tables: StoreView, row: residents::Model) -> Result<(), ServiceError> {
    if !is_enrolled(tables.residents, row.rfid@) {
        Err(ServiceError::NotFound)
    } else if !resident_resolves(tables.locations, row) {
        Err(ServiceError::Validation)
    } else {
        Ok(())
    }
}

/// A new location takes nothing from the tables: what resolved before still
/// resolves, and the tables stay well formed if its id was free.
pub proof fn lemma_more_places_resolve_more(tables: StoreView, place: locations::Model)
    requires
        tables.wf(),
        !has_location(tables.locations, place.id as int),
    ensures
        (StoreView { locations: tables.locations.push(place), ..tables }).wf(),
        forall|id: int|
            place_resolves(tables.locations, id) ==> place_resolves(
                tables.locations.push(place),
                id,
            ),
{
    let more = tables.locations.push(place);
    assert forall|id: int| has_location(tables.locations, id) implies has_location(more, id) by {
        let i = located_at(tables.locations, id);
        assert(more[i].id == id);
    }
    assert forall|i: int, j: int| 0 <= i < j < more.len() implies (#[trigger] more[i]).id != (
    #[trigger] more[j]).id by {
        if j == more.len() - 1 {
            assert(tables.locations[i].id != place.id);
        }
    }
}

/// The range asked for, or else the one day `today`.
pub open spec fn range_or_day(range: Option<RangeParams>, today: Date) -> RangeParams {
    match range {
        Some(given) => given,
        None => RangeParams { start_date: today, end_date: today },
    }
}

/// The range asked for, or else the one day `today`.
pub fn pick_range(range: Option<RangeParams>, today: Date) -> (r: RangeParams)
    ensures
        r == range_or_day(range, today),
{
    match range {
        Some(given) => given,
        None => RangeParams::single(today),
    }
}

/// The rows of the history that the criteria accept, newest first.
pub open spec fn history(rows: Seq<timestamps::Model>, criteria: Criteria) -> Seq<
    timestamps::Model,
> {
    newest_first(selected(rows, criteria))
}

/// A row is handed out exactly when it stands in the history and the
/// criteria accept it, and the rows handed out stand newest first.
pub proof fn lemma_history_rows(rows: Seq<timestamps::Model>, criteria: Criteria, row: timestamps::Model)
    ensures
        history(rows, criteria).contains(row) <==> rows.contains(row) && criteria.accepts(row),
        is_newest_first(history(rows, criteria)),
        history(rows, criteria).len() <= rows.len(),
{
    let chosen = selected(rows, criteria);
    lemma_selected_rows(rows, criteria, row);
    lemma_newest_first(chosen);
    vstd::seq_lib::to_multiset_contains(chosen, row);
    vstd::seq_lib::to_multiset_contains(newest_first(chosen), row);
}

/// Of the history collapsed to one row for each resident: every row handed
/// out stands in the history and is accepted by the criteria, and no accepted
/// row of the same resident is of a later moment.
pub proof fn lemma_unique_history_is_latest(
    rows: Seq<timestamps::Model>,
    criteria: Criteria,
    row: timestamps::Model,
    other: timestamps::Model,
)
    requires
        first_per_resident(history(rows, criteria)).contains(row),
        rows.contains(other),
        criteria.accepts(other),
        other.rfid@ == row.rfid@,
    ensures
        rows.contains(row),
        criteria.accepts(row),
        other.ts.not_after(row.ts),
{
    let ordered = history(rows, criteria);
    lemma_history_rows(rows, criteria, other);
    lemma_first_per_resident_rows(ordered, row);
    let k = choose|k: int|
        0 <= k < ordered.len() && #[trigger] ordered[k] == row && !has_resident(
            ordered.take(k),
            row.rfid@,
        );
    assert(ordered.contains(row));
    lemma_history_rows(rows, criteria, row);
    lemma_first_per_resident_is_latest(ordered, row, other);
}

/// With no range given, a query hands out the rows of today and no others:
/// a row of the resident written today is there, at whatever time of day,
/// and a row of any other day is not.
pub proof fn lemma_default_is_today(
    rows: Seq<timestamps::Model>,
    rfid: String,
    today: Date,
    row: timestamps::Model,
)
    ensures
        history(
            rows,
            Criteria { rfid: Some(rfid), location: None, range: range_or_day(None, today) },
        ).contains(row) <==> rows.contains(row) && row.rfid@ == rfid@ && row.ts.date == today,
{
    lemma_history_rows(
        rows,
        Criteria { rfid: Some(rfid), location: None, range: range_or_day(None, today) },
        row,
    );
}

/// With a range given, a query hands out the rows whose date lies between
/// its ends, both included, and no others.
pub proof fn lemma_range_is_kept(
    rows: Seq<timestamps::Model>,
    range: RangeParams,
    today: Date,
    row: timestamps::Model,
)
    ensures
        history(
            rows,
            Criteria { rfid: None, location: None, range: range_or_day(Some(range), today) },
        ).contains(row) <==> rows.contains(row) && range.start_date.not_after(row.ts.date)
            && row.ts.date.not_after(range.end_date),
{
    lemma_history_rows(
        rows,
        Criteria { rfid: None, location: None, range: range_or_day(Some(range), today) },
        row,
    );
}

/// Why a scan is refused, if it is.
pub open spec fn scan_refusal(tables: StoreView, scan: PostTimestamp) -> Option<ServiceError> {
    if !is_enrolled(tables.residents, scan.rfid@) {
        Some(ServiceError::NotFound)
    } else if !place_resolves(tables.locations, scan.location as int) {
        Some(ServiceError::Validation)
    } else if next_number(tables.timestamps) > i32::MAX {
        Some(ServiceError::StoreUnavailable)
    } else {
        None
    }
}

/// What an accepted scan hands back: the resident at the location that the
/// toggle rule gives, and the new row of the history, which records that
/// location at the moment `now`.
pub open spec fn scan_receipt(tables: StoreView, scan: PostTimestamp, now: DateTime) -> ResidentTimestamp {
    let stored = tables.residents[enrolled_at(tables.residents, scan.rfid@)];
    let outcome = toggled(stored.current_location as int, scan.location as int);
    ResidentTimestamp {
        resident: stored.moved_to(outcome.0 as i32),
        timestamp: timestamps::Model {
            id: next_number(tables.timestamps) as i32,
            rfid: stored.rfid,
            location: outcome.1 as i32,
            ts: now,
        },
    }
}

/// The tables after an accepted scan: the resident's row is replaced, one
/// row is added to the history, and nothing else changes.
pub open spec fn after_scan(tables: StoreView, scan: PostTimestamp, now: DateTime) -> StoreView {
    let receipt = scan_receipt(tables, scan, now);
    StoreView {
        locations: tables.locations,
        residents: tables.residents.update(
            enrolled_at(tables.residents, scan.rfid@),
            receipt.resident,
        ),
        timestamps: tables.timestamps.push(receipt.timestamp),
    }
}

/// An accepted scan leaves the tables well formed.
pub proof fn lemma_scan_keeps_tables(tables: StoreView, scan: PostTimestamp, now: DateTime)
    requires
        tables.wf(),
        scan_refusal(tables, scan) is None,
    ensures
        after_scan(tables, scan, now).wf(),
{
    let at = enrolled_at(tables.residents, scan.rfid@);
    let receipt = scan_receipt(tables, scan, now);
    let after = after_scan(tables, scan, now);
    assert(receipt.resident.rfid == tables.residents[at].rfid);
    assert forall|a: int, b: int| 0 <= a < b < after.residents.len() implies (
    #[trigger] after.residents[a]).rfid@ != (#[trigger] after.residents[b]).rfid@ by {
        assert(tables.residents[a].rfid@ != tables.residents[b].rfid@);
    }
    assert forall|k: int| 0 <= k < after.residents.len() implies resident_resolves(
        after.locations,
        #[trigger] after.residents[k],
    ) by {
        assert(resident_resolves(tables.locations, tables.residents[k]));
    }
    assert forall|k: int| 0 <= k < after.timestamps.len() implies place_resolves(
        after.locations,
        (#[trigger] after.timestamps[k]).location as int,
    ) by {
        if k < tables.timestamps.len() {
            assert(after.timestamps[k] == tables.timestamps[k]);
        }
    }
    assert forall|k: int| 0 <= k < after.timestamps.len() implies (
    #[trigger] after.timestamps[k]).id >= 1 by {
        if k < tables.timestamps.len() {
            assert(after.timestamps[k] == tables.timestamps[k]);
        } else if tables.timestamps.len() > 0 {
            assert(tables.timestamps[tables.timestamps.len() - 1].id >= 1);
        }
    }
    assert forall|a: int, b: int| 0 <= a < b < after.timestamps.len() implies (
    #[trigger] after.timestamps[a]).id < (#[trigger] after.timestamps[b]).id by {
        assert(after.timestamps[a] == tables.timestamps[a]);
        if b < tables.timestamps.len() {
            assert(after.timestamps[b] == tables.timestamps[b]);
        } else if a < tables.timestamps.len() - 1 {
            assert(tables.timestamps[a].id < tables.timestamps[tables.timestamps.len() - 1].id);
        }
    }
}

/// A scan of the fixtures names an enrolled resident and a location that
/// resolves.
pub open spec fn scan_resolves(
    places: Seq<locations::Model>,
    people: Seq<residents::Model>,
    scan: PostTimestamp,
) -> bool {
    is_enrolled(people, scan.rfid@) && place_resolves(places, scan.location as int)
}

/// Every reference in the fixtures resolves.
pub open spec fn fixture_resolves(
    places: Seq<locations::Model>,
    people: Seq<residents::Model>,
    scans: Seq<PostTimestamp>,
) -> bool {
    &&& forall|i: int| 0 <= i < people.len() ==> resident_resolves(places, #[trigger] people[i])
    &&& forall|i: int| 0 <= i < scans.len() ==> scan_resolves(places, people, #[trigger] scans[i])
}

/// What is wrong with the fixtures, if anything is.
pub open spec fn fixture_fault(
    places: Seq<locations::Model>,
    people: Seq<residents::Model>,
    scans: Seq<PostTimestamp>,
) -> Option<ServiceError> {
    if !(distinct_locations(places) && distinct_residents(people)) {
        Some(ServiceError::Conflict)
    } else if !fixture_resolves(places, people, scans) {
        Some(ServiceError::Validation)
    } else if scans.len() > i32::MAX {
        Some(ServiceError::StoreUnavailable)
    } else {
        None
    }
}

/// What is wrong with the rows of the three tables, if anything is.
pub open spec fn tables_fault(
    places: Seq<locations::Model>,
    people: Seq<residents::Model>,
    rows: Seq<timestamps::Model>,
) -> Option<ServiceError> {
    if !(distinct_locations(places) && distinct_residents(people) && numbered(rows)) {
        Some(ServiceError::Conflict)
    } else if !((StoreView { locations: places, residents: people, timestamps: rows }).wf()) {
        Some(ServiceError::Validation)
    } else {
        None
    }
}

/// Every reference of the residents and the history of a fixture resolves,
/// once they stand in the tables.
pub open spec fn load_resolves(
    tables: StoreView,
    people: Seq<residents::Model>,
    scans: Seq<PostTimestamp>,
) -> bool {
    &&& forall|i: int|
        0 <= i < people.len() ==> resident_resolves(tables.locations, #[trigger] people[i])
    &&& forall|i: int|
        0 <= i < scans.len() ==> scan_resolves(
            tables.locations,
            tables.residents + people,
            #[trigger] scans[i],
        )
}

/// Why the residents and the history of a fixture cannot be added to the
/// tables, if they cannot.
pub open spec fn load_fault(
    tables: StoreView,
    people: Seq<residents::Model>,
    scans: Seq<PostTimestamp>,
) -> Option<ServiceError> {
    if !distinct_residents(tables.residents + people) {
        Some(ServiceError::Conflict)
    } else if !load_resolves(tables, people, scans) {
        Some(ServiceError::Validation)
    } else if next_number(tables.timestamps) + scans.len() > i32::MAX + 1 {
        Some(ServiceError::StoreUnavailable)
    } else {
        None
    }
}

/// The scans of a fixture as rows of the history: numbered from `first` on in
/// their order, all dated `now`.
pub open spec fn stamped(first: int, scans: Seq<PostTimestamp>, now: DateTime) -> Seq<
    timestamps::Model,
> {
    Seq::new(
        scans.len(),
        |i: int|
            timestamps::Model {
                id: (first + i) as i32,
                rfid: scans[i].rfid,
                location: scans[i].location,
                ts: now,
            },
    )
}

/// Locations that bring no repeated id leave the tables well formed.
pub proof fn lemma_more_locations_keep_tables(tables: StoreView, places: Seq<locations::Model>)
    requires
        tables.wf(),
        distinct_locations(tables.locations + places),
    ensures
        (StoreView { locations: tables.locations + places, ..tables }).wf(),
{
    let more = tables.locations + places;
    assert forall|id: int| has_location(tables.locations, id) implies has_location(more, id) by {
        let i = located_at(tables.locations, id);
        assert(more[i].id == id);
    }
    assert forall|i: int| 0 <= i < tables.residents.len() implies resident_resolves(
        more,
        #[trigger] tables.residents[i],
    ) by {
        assert(resident_resolves(tables.locations, tables.residents[i]));
    }
    assert forall|i: int| 0 <= i < tables.timestamps.len() implies place_resolves(
        more,
        (#[trigger] tables.timestamps[i]).location as int,
    ) by {
        assert(place_resolves(tables.locations, tables.timestamps[i].location as int));
    }
}

/// Residents and rows of a fixture that is without fault leave the tables
/// well formed.
pub proof fn lemma_more_rows_keep_tables(
    tables: StoreView,
    people: Seq<residents::Model>,
    scans: Seq<PostTimestamp>,
    now: DateTime,
)
    requires
        tables.wf(),
        load_fault(tables, people, scans) is None,
    ensures
        (StoreView {
            locations: tables.locations,
            residents: tables.residents + people,
            timestamps: tables.timestamps + stamped(next_number(tables.timestamps), scans, now),
        }).wf(),
{
    let first = next_number(tables.timestamps);
    let rows = tables.timestamps + stamped(first, scans, now);
    let all = tables.residents + people;
    let n = tables.timestamps.len() as int;
    if n > 0 {
        assert(tables.timestamps[n - 1].id >= 1);
    }
    assert forall|i: int| 0 <= i < all.len() implies resident_resolves(
        tables.locations,
        #[trigger] all[i],
    ) by {
        if i < tables.residents.len() {
            assert(resident_resolves(tables.locations, tables.residents[i]));
        } else {
            assert(resident_resolves(tables.locations, people[i - tables.residents.len()]));
        }
    }
    assert forall|i: int| 0 <= i < rows.len() implies place_resolves(
        tables.locations,
        (#[trigger] rows[i]).location as int,
    ) by {
        if i < n {
            assert(place_resolves(tables.locations, tables.timestamps[i].location as int));
        } else {
            assert(scan_resolves(tables.locations, all, scans[i - n]));
        }
    }
    assert forall|i: int| 0 <= i < rows.len() implies (#[trigger] rows[i]).id >= 1 by {
        if i < n {
            assert(tables.timestamps[i].id >= 1);
        }
    }
    assert forall|a: int, b: int| 0 <= a < b < rows.len() implies (#[trigger] rows[a]).id < (
    #[trigger] rows[b]).id by {
        if b < n {
            assert(tables.timestamps[a].id < tables.timestamps[b].id);
        } else if a < n {
            if a < n - 1 {
                assert(tables.timestamps[a].id < tables.timestamps[n - 1].id);
            }
        }
    }
}

/// Whether no two locations share an id.
pub fn locations_distinct(places: &Vec<locations::Model>) -> (b: bool)
    ensures
        b == distinct_locations(places@),
{
    let mut j: usize = 0;
    while j < places.len()
        invariant
            j <= places.len(),
            distinct_locations(places@.take(j as int)),
        decreases places.len() - j,
    {
        let mut i: usize = 0;
        while i < j
            invariant
                i <= j < places.len(),
                forall|k: int| 0 <= k < i ==> (#[trigger] places@[k]).id != places@[j as int].id,
            decreases j - i,
        {
            if places[i].id == places[j].id {
                return false;
            }
            i = i + 1;
        }
        proof {
            let seen = places@.take(j + 1);
            assert forall|a: int, b: int| 0 <= a < b < seen.len() implies (#[trigger] seen[a]).id != (
            #[trigger] seen[b]).id by {
                if b < j {
                    assert(places@.take(j as int)[a].id != places@.take(j as int)[b].id);
                } else {
                    assert(places@[a].id != places@[j as int].id);
                }
            }
        }
        j = j + 1;
    }
    proof {
        assert(places@.take(places.len() as int) == places@);
    }
    true
}

/// Whether no two residents share a tag.
pub fn residents_distinct(people: &Vec<residents::Model>) -> (b: bool)
    ensures
        b == distinct_residents(people@),
{
    let mut j: usize = 0;
    while j < people.len()
        invariant
            j <= people.len(),
            distinct_residents(people@.take(j as int)),
        decreases people.len() - j,
    {
        let mut i: usize = 0;
        while i < j
            invariant
                i <= j < people.len(),
                forall|k: int|
                    0 <= k < i ==> (#[trigger] people@[k]).rfid@ != people@[j as int].rfid@,
            decreases j - i,
        {
            if people[i].wears(&people[j].rfid) {
                return false;
            }
            i = i + 1;
        }
        proof {
            let seen = people@.take(j + 1);
            assert forall|a: int, b: int| 0 <= a < b < seen.len() implies (#[trigger] seen[a]).rfid@
                != (#[trigger] seen[b]).rfid@ by {
                if b < j {
                    assert(people@.take(j as int)[a].rfid@ != people@.take(j as int)[b].rfid@);
                } else {
                    assert(people@[a].rfid@ != people@[j as int].rfid@);
                }
            }
        }
        j = j + 1;
    }
    proof {
        assert(people@.take(people.len() as int) == people@);
    }
    true
}

/// Whether the home of every resident is a location, and where each is
/// recorded is the sentinel or a location.
pub fn residents_resolve(places: &Vec<locations::Model>, people: &Vec<residents::Model>) -> (b:
    bool)
    ensures
        b == (forall|i: int|
            0 <= i < people.len() ==> resident_resolves(places@, #[trigger] people@[i])),
{
    let mut i: usize = 0;
    while i < people.len()
        invariant
            i <= people.len(),
            forall|k: int| 0 <= k < i ==> resident_resolves(places@, #[trigger] people@[k]),
        decreases people.len() - i,
    {
        if !(find_location(places, people[i].unit).is_some() && resolves(
            places,
            people[i].current_location,
        )) {
            return false;
        }
        i = i + 1;
    }
    true
}

/// Whether every scan names an enrolled resident and a location that
/// resolves.
pub fn scans_resolve(
    places: &Vec<locations::Model>,
    people: &Vec<residents::Model>,
    scans: &Vec<PostTimestamp>,
) -> (b: bool)
    ensures
        b == (forall|i: int|
            0 <= i < scans.len() ==> scan_resolves(places@, people@, #[trigger] scans@[i])),
{
    let mut i: usize = 0;
    while i < scans.len()
        invariant
            i <= scans.len(),
            forall|k: int| 0 <= k < i ==> scan_resolves(places@, people@, #[trigger] scans@[k]),
        decreases scans.len() - i,
    {
        if !(find_resident(people, &scans[i].rfid).is_some() && resolves(
            places,
            scans[i].location,
        )) {
            return false;
        }
        i = i + 1;
    }
    true
}

/// Whether the rows of the history carry ascending numbers, from 1 on.
pub fn rows_numbered(rows: &Vec<timestamps::Model>) -> (b: bool)
    ensures
        b == numbered(rows@),
{
    let mut i: usize = 0;
    while i < rows.len()
        invariant
            i <= rows.len(),
            numbered(rows@.take(i as int)),
        decreases rows.len() - i,
    {
        if rows[i].id < 1 {
            return false;
        }
        if i > 0 && rows[i - 1].id >= rows[i].id {
            return false;
        }
        proof {
            let seen = rows@.take(i as int);
            let more = rows@.take(i + 1);
            assert forall|k: int| 0 <= k < more.len() implies (#[trigger] more[k]).id >= 1 by {
                if k < i {
                    assert(seen[k].id >= 1);
                }
            }
            assert forall|a: int, b: int| 0 <= a < b < more.len() implies (#[trigger] more[a]).id < (
            #[trigger] more[b]).id by {
                if b < i {
                    assert(seen[a].id < seen[b].id);
                } else if a < i - 1 {
                    assert(seen[a].id < seen[i - 1].id);
                } else {
                    assert(more[a] == rows@[i - 1]);
                }
            }
        }
        i = i + 1;
    }
    proof {
        assert(rows@.take(rows.len() as int) == rows@);
    }
    true
}

/// Whether every row of the history names the sentinel or a location.
pub fn rows_resolve(places: &Vec<locations::Model>, rows: &Vec<timestamps::Model>) -> (b: bool)
    ensures
        b == (forall|i: int|
            0 <= i < rows.len() ==> place_resolves(
                places@,
                (#[trigger] rows@[i]).location as int,
            )),
{
    let mut i: usize = 0;
    while i < rows.len()
        invariant
            i <= rows.len(),
            forall|k: int|
                0 <= k < i ==> place_resolves(places@, (#[trigger] rows@[k]).location as int),
        decreases rows.len() - i,
    {
        if !resolves(places, rows[i].location) {
            return false;
        }
        i = i + 1;
    }
    true
}

} // verus!
