//! The tables of the service, held in memory. Every operation keeps them
//! well formed: primary keys are unique, the movement history is numbered in
//! the order of writing, and references to locations resolve.

use crate::calendar::Date;
use crate::calendar::DateTime;
use crate::calendar::RangeParams;
use crate::entity::locations;
use crate::entity::residents::Relation;
use crate::entity::residents;
use crate::entity::timestamps;
use crate::error::ServiceError;
use crate::history::Criteria;
use crate::history::first_per_resident;
use crate::history::is_newest_first;
use crate::history::latest_per_resident;
use crate::history::lemma_first_per_resident_keeps_order;
use crate::history::order_newest_first;
use crate::history::select;
use crate::models::residents::UpdateResident;
use crate::models::timestamps::PostTimestamp;
use crate::models::timestamps::ResidentTimestamp;
use crate::tables::StoreView;
use crate::tables::after_scan;
use crate::tables::distinct_locations;
use crate::tables::enrolled_at;
use crate::tables::enrolment;
use crate::tables::find_location;
use crate::tables::find_resident;
use crate::tables::fixture_fault;
use crate::tables::has_location;
use crate::tables::history;
use crate::tables::is_enrolled;
use crate::tables::lemma_more_locations_keep_tables;
use crate::tables::lemma_more_places_resolve_more;
use crate::tables::lemma_more_rows_keep_tables;
use crate::tables::lemma_references_resolve;
use crate::tables::lemma_scan_keeps_tables;
use crate::tables::load_fault;
use crate::tables::located_at;
use crate::tables::locations_distinct;
use crate::tables::next_number;
use crate::tables::numbered;
use crate::tables::pick_range;
use crate::tables::place_resolves;
use crate::tables::range_or_day;
use crate::tables::relation_kept;
use crate::tables::replacement;
use crate::tables::resident_resolves;
use crate::tables::residents_distinct;
use crate::tables::residents_of;
use crate::tables::residents_resolve;
use crate::tables::resolves;
use crate::tables::revision;
use crate::tables::rows_numbered;
use crate::tables::rows_resolve;
use crate::tables::scan_receipt;
use crate::tables::scan_refusal;
use crate::tables::scan_resolves;
use crate::tables::scans_resolve;
use crate::tables::stamped;
use crate::tables::stays_at;
use crate::tables::tables_fault;
use crate::toggle::resolve;
use vstd::prelude::*;

verus! {

/// The tables of the service.
#[derive(Debug)]
pub struct Store {
    locations: Vec<locations::Model>,
    residents: Vec<residents::Model>,
    timestamps: Vec<timestamps::Model>,
}

impl View for Store {
    type V = StoreView;

    closed spec fn view(&self) -> StoreView {
        StoreView {
            locations: self.locations@,
            residents: self.residents@,
            timestamps: self.timestamps@,
        }
    }
}

impl Store {
    /// What holds of the tables at all times.
    pub open spec fn wf(&self) -> bool {
        self@.wf()
    }

    /// The store with three empty tables.
    pub fn new() -> (s: Store)
        ensures
            s.wf(),
            s@.locations.len() == 0,
            s@.residents.len() == 0,
            s@.timestamps.len() == 0,
    {
        Store { locations: Vec::new(), residents: Vec::new(), timestamps: Vec::new() }
    }

    /// All locations, in the order in which they were stored.
    pub fn list_locations(&self) -> (out: Vec<locations::Model>)
        ensures
            out@ == self@.locations,
    {
        let out = self.locations.clone();
        assert(out@ =~= self.locations@);
        out
    }

    /// The location with this id.
    pub fn get_location(&self, id: i32) -> (r: Result<locations::Model, ServiceError>)
        requires
            self.wf(),
        ensures
            has_location(self@.locations, id as int) ==> r == Ok::<locations::Model, ServiceError>(
                self@.locations[located_at(self@.locations, id as int)],
            ),
            r matches Ok(place) ==> place.id == id && self@.locations.contains(place),
            !has_location(self@.locations, id as int) ==> r == Err::<
                locations::Model,
                ServiceError,
            >(ServiceError::NotFound),
    {
        match find_location(&self.locations, id) {
            Some(i) => Ok(self.locations[i].clone()),
            None => Err(ServiceError::NotFound),
        }
    }

    /// Stores a new location. An id that is already taken is a conflict and
    /// changes nothing.
    pub fn store_location(&mut self, place: locations::Model) -> (r: Result<(), ServiceError>)
        requires
            old(self).wf(),
        ensures
            final(self).wf(),
            has_location(old(self)@.locations, place.id as int) ==> r == Err::<(), ServiceError>(
                ServiceError::Conflict,
            ) && final(self)@ == old(self)@,
            !has_location(old(self)@.locations, place.id as int) ==> r == Ok::<(), ServiceError>(
                (),
            ) && final(self)@ == (StoreView {
                locations: old(self)@.locations.push(place),
                ..old(self)@
            }),
    {
        if find_location(&self.locations, place.id).is_some() {
            return Err(ServiceError::Conflict);
        }
        proof {
            lemma_more_places_resolve_more(self@, place);
        }
        self.locations.push(place);
        Ok(())
    }

    /// All residents, in the order in which they were enrolled.
    pub fn list_residents(&self) -> (out: Vec<residents::Model>)
        ensures
            out@ == self@.residents,
    {
        let out = self.residents.clone();
        assert(out@ =~= self.residents@);
        out
    }

    /// The resident who wears the tag.
    pub fn get_resident(&self, rfid: &String) -> (r: Result<residents::Model, ServiceError>)
        requires
            self.wf(),
        ensures
            is_enrolled(self@.residents, rfid@) ==> r == Ok::<residents::Model, ServiceError>(
                self@.residents[enrolled_at(self@.residents, rfid@)],
            ),
            r matches Ok(person) ==> person.rfid@ == rfid@ && self@.residents.contains(person),
            !is_enrolled(self@.residents, rfid@) ==> r == Err::<residents::Model, ServiceError>(
                ServiceError::NotFound,
            ),
    {
        match find_resident(&self.residents, rfid) {
            Some(i) => Ok(self.residents[i].clone()),
            None => Err(ServiceError::NotFound),
        }
    }

    /// Enrols a resident. A tag that is already enrolled is a conflict; a
    /// home that is no location, or a recorded location that is neither the
    /// sentinel nor a location, is a validation failure. A refusal changes
    /// nothing.
    pub fn store_resident(&mut self, person: residents::Model) -> (r: Result<(), ServiceError>)
        requires
            old(self).wf(),
        ensures
            final(self).wf(),
            r == enrolment(old(self)@, person),
            r is Err ==> final(self)@ == old(self)@,
            r is Ok ==> final(self)@ == (StoreView {
                residents: old(self)@.residents.push(person),
                ..old(self)@
            }),
    {
        if find_resident(&self.residents, &person.rfid).is_some() {
            return Err(ServiceError::Conflict);
        }
        if !(find_location(&self.locations, person.unit).is_some() && resolves(
            &self.locations,
            person.current_location,
        )) {
            return Err(ServiceError::Validation);
        }
        proof {
            let more = self@.residents.push(person);
            assert forall|i: int, j: int| 0 <= i < j < more.len() implies (#[trigger] more[i]).rfid@
                != (#[trigger] more[j]).rfid@ by {
                if j == more.len() - 1 {
                    assert(self@.residents[i].rfid@ != person.rfid@);
                }
            }
        }
        self.residents.push(person);
        Ok(())
    }

    /// Removes the resident who wears the tag. The rows of the history stay.
    pub fn delete_resident(&mut self, rfid: &String) -> (r: Result<residents::Model, ServiceError>)
        requires
            old(self).wf(),
        ensures
            final(self).wf(),
            !is_enrolled(old(self)@.residents, rfid@) ==> r == Err::<
                residents::Model,
                ServiceError,
            >(ServiceError::NotFound) && final(self)@ == old(self)@,
            is_enrolled(old(self)@.residents, rfid@) ==> r == Ok::<residents::Model, ServiceError>(
                old(self)@.residents[enrolled_at(old(self)@.residents, rfid@)],
            ) && final(self)@ == (StoreView {
                residents: old(self)@.residents.remove(enrolled_at(old(self)@.residents, rfid@)),
                ..old(self)@
            }) && !is_enrolled(final(self)@.residents, rfid@),
    {
        match find_resident(&self.residents, rfid) {
            None => Err(ServiceError::NotFound),
            Some(i) => {
                let ghost before = self@.residents;
                let gone = self.residents.remove(i);
                proof {
                    let after = self@.residents;
                    assert forall|k: int| 0 <= k < after.len() implies #[trigger] after[k] == before[if k
                        < i {
                        k
                    } else {
                        k + 1
                    }] by {}
                    assert forall|k: int| 0 <= k < after.len() implies (#[trigger] after[k]).rfid@
                        != rfid@ by {
                        if k < i {
                            assert(before[k].rfid@ != before[i as int].rfid@);
                        } else {
                            assert(before[i as int].rfid@ != before[k + 1].rfid@);
                        }
                    }
                    assert forall|a: int, b: int| 0 <= a < b < after.len() implies (
                    #[trigger] after[a]).rfid@ != (#[trigger] after[b]).rfid@ by {
                        let a0 = if a < i { a } else { a + 1 };
                        let b0 = if b < i { b } else { b + 1 };
                        assert(before[a0].rfid@ != before[b0].rfid@);
                    }
                    assert forall|k: int| 0 <= k < after.len() implies resident_resolves(
                        self@.locations,
                        #[trigger] after[k],
                    ) by {
                        let k0 = if k < i { k } else { k + 1 };
                        assert(resident_resolves(self@.locations, before[k0]));
                    }
                }
                Ok(gone)
            },
        }
    }

    /// The residents of one location: those recorded there at present, or
    /// those whose home it is.
    pub fn residents_by_location(&self, location: i32, current: bool) -> (out: Vec<
        residents::Model,
    >)
        ensures
            out@ == residents_of(self@.residents, location, current),
    {
        let mut out: Vec<residents::Model> = Vec::new();
        let ghost stays = |person: residents::Model| stays_at(person, location, current);
        let mut i: usize = 0;
        while i < self.residents.len()
            invariant
                i <= self.residents.len(),
                stays == (|person: residents::Model| stays_at(person, location, current)),
                out@ == self.residents@.take(i as int).filter(stays),
            decreases self.residents.len() - i,
        {
            proof {
                self.residents@.lemma_take_succ_push(i as int);
                self.residents@.take(i as int).lemma_filter_push(self.residents@[i as int], stays);
            }
            let person = &self.residents[i];
            let here = if current {
                person.current_location == location
            } else {
                person.unit == location
            };
            if here {
                out.push(person.clone());
            }
            i = i + 1;
        }
        proof {
            assert(self.residents@.take(self.residents.len() as int) == self.residents@);
        }
        out
    }

    /// Changes the resident who wears the tag: each field that the update
    /// gives replaces the stored one. The resident must be enrolled, the
    /// numbers given must fit a row, a new tag must be free, and the
    /// references of the changed row must resolve; otherwise nothing changes.
    pub fn update_resident(&mut self, rfid: &String, update: &UpdateResident) -> (r: Result<
        residents::Model,
        ServiceError,
    >)
        requires
            old(self).wf(),
        ensures
            final(self).wf(),
            r == revision(old(self)@, rfid@, *update),
            r is Err ==> final(self)@ == old(self)@,
            r matches Ok(changed) ==> final(self)@ == (StoreView {
                residents: old(self)@.residents.update(
                    enrolled_at(old(self)@.residents, rfid@),
                    changed,
                ),
                ..old(self)@
            }),
    {
        let at = match find_resident(&self.residents, rfid) {
            Some(i) => i,
            None => {
                return Err(ServiceError::NotFound);
            },
        };
        let changed = match update.apply(&self.residents[at]) {
            Ok(row) => row,
            Err(e) => {
                return Err(e);
            },
        };
        if !(changed.rfid == *rfid) && find_resident(&self.residents, &changed.rfid).is_some() {
            return Err(ServiceError::Conflict);
        }
        if !(find_location(&self.locations, changed.unit).is_some() && resolves(
            &self.locations,
            changed.current_location,
        )) {
            return Err(ServiceError::Validation);
        }
        let ghost before = self@.residents;
        self.residents.set(at, changed.clone());
        proof {
            let after = self@.residents;
            assert(after == before.update(at as int, changed));
            assert forall|a: int, b: int| 0 <= a < b < after.len() implies (#[trigger] after[a]).rfid@
                != (#[trigger] after[b]).rfid@ by {
                if a == at {
                    assert(before[b].rfid@ != before[at as int].rfid@);
                } else if b == at {
                    assert(before[a].rfid@ != before[at as int].rfid@);
                } else {
                    assert(before[a].rfid@ != before[b].rfid@);
                }
            }
            assert forall|k: int| 0 <= k < after.len() implies resident_resolves(
                self@.locations,
                #[trigger] after[k],
            ) by {
                if k != at {
                    assert(resident_resolves(self@.locations, before[k]));
                }
            }
        }
        Ok(changed)
    }

    /// The movement history of one resident, newest first. With no range
    /// given, the rows of `today`.
    pub fn timestamps_for_resident(
        &self,
        rfid: &String,
        range: Option<RangeParams>,
        today: Date,
    ) -> (out: Vec<timestamps::Model>)
        ensures
            out@ == history(
                self@.timestamps,
                Criteria { rfid: Some(*rfid), location: None, range: range_or_day(range, today) },
            ),
            is_newest_first(out@),
    {
        let criteria = Criteria::of_resident(rfid, pick_range(range, today));
        let chosen = select(&self.timestamps, &criteria);
        order_newest_first(&chosen)
    }

    /// The movement history of one location, newest first. With no range
    /// given, the rows of `today`.
    pub fn timestamps_for_location(&self, location: i32, range: Option<RangeParams>, today: Date) -> (out:
        Vec<timestamps::Model>)
        ensures
            out@ == history(
                self@.timestamps,
                Criteria { rfid: None, location: Some(location), range: range_or_day(range, today) },
            ),
            is_newest_first(out@),
    {
        let criteria = Criteria::at_location(location, pick_range(range, today));
        let chosen = select(&self.timestamps, &criteria);
        order_newest_first(&chosen)
    }

    /// The movement history of all residents, newest first. With no range
    /// given, the rows of `today`. With `unique`, only the latest row of each
    /// resident.
    pub fn timestamps_global(&self, range: Option<RangeParams>, unique: bool, today: Date) -> (out:
        Vec<timestamps::Model>)
        ensures
            !unique ==> out@ == history(
                self@.timestamps,
                Criteria { rfid: None, location: None, range: range_or_day(range, today) },
            ),
            unique ==> out@ == first_per_resident(
                history(
                    self@.timestamps,
                    Criteria { rfid: None, location: None, range: range_or_day(range, today) },
                ),
            ),
            is_newest_first(out@),
    {
        let criteria = Criteria::everywhere(pick_range(range, today));
        let chosen = select(&self.timestamps, &criteria);
        let ordered = order_newest_first(&chosen);
        if unique {
            proof {
                lemma_first_per_resident_keeps_order(ordered@);
            }
            latest_per_resident(&ordered)
        } else {
            ordered
        }
    }

    /// Accepts one scan at the moment `now`: looks up the resident, applies
    /// the toggle rule to where they are recorded, writes the new location to
    /// their row and adds one row to the movement history, both or neither.
    /// A tag that is not enrolled is refused, as is a reader location that is
    /// neither the sentinel nor a location, and a history whose numbers are
    /// used up. A refusal changes nothing.
    pub fn record_scan(&mut self, scan: &PostTimestamp, now: DateTime) -> (r: Result<
        ResidentTimestamp,
        ServiceError,
    >)
        requires
            old(self).wf(),
        ensures
            final(self).wf(),
            scan_refusal(old(self)@, *scan) matches Some(e) ==> r == Err::<
                ResidentTimestamp,
                ServiceError,
            >(e) && final(self)@ == old(self)@,
            scan_refusal(old(self)@, *scan) is None ==> r == Ok::<ResidentTimestamp, ServiceError>(
                scan_receipt(old(self)@, *scan, now),
            ) && final(self)@ == after_scan(old(self)@, *scan, now),
    {
        let at = match find_resident(&self.residents, &scan.rfid) {
            Some(i) => i,
            None => {
                return Err(ServiceError::NotFound);
            },
        };
        if !resolves(&self.locations, scan.location) {
            return Err(ServiceError::Validation);
        }
        let number = match self.next_number() {
            Some(n) => n,
            None => {
                return Err(ServiceError::StoreUnavailable);
            },
        };
        let stored = &self.residents[at];
        let (next, recorded) = resolve(stored.current_location, scan.location);
        let resident = residents::Model {
            rfid: stored.rfid.clone(),
            name: stored.name.clone(),
            doc: stored.doc.clone(),
            room: stored.room.clone(),
            unit: stored.unit,
            current_location: next,
            level: stored.level,
        };
        let timestamp = timestamps::Model {
            id: number,
            rfid: stored.rfid.clone(),
            location: recorded,
            ts: now,
        };
        let ghost before = self@;
        self.residents.set(at, resident.clone());
        self.timestamps.push(timestamp.clone());
        proof {
            lemma_scan_keeps_tables(before, *scan, now);
            assert(self@.residents == after_scan(before, *scan, now).residents);
            assert(self@.timestamps == after_scan(before, *scan, now).timestamps);
        }
        Ok(ResidentTimestamp { resident, timestamp })
    }

    /// Accepts one scan at the present moment.
    pub fn record_scan_now(&mut self, scan: &PostTimestamp) -> (r: Result<
        ResidentTimestamp,
        ServiceError,
    >)
        requires
            old(self).wf(),
        ensures
            final(self).wf(),
            scan_refusal(old(self)@, *scan) matches Some(e) ==> r == Err::<
                ResidentTimestamp,
                ServiceError,
            >(e) && final(self)@ == old(self)@,
            scan_refusal(old(self)@, *scan) is None ==> exists|now: DateTime|
                now.wf() && r == Ok::<ResidentTimestamp, ServiceError>(
                    #[trigger] scan_receipt(old(self)@, *scan, now),
                ) && final(self)@ == after_scan(old(self)@, *scan, now),
    {
        let now = crate::calendar::now();
        self.record_scan(scan, now)
    }

    /// The number for the next row of the history, unless the numbers are
    /// used up.
    fn next_number(&self) -> (n: Option<i32>)
        ensures
            next_number(self@.timestamps) <= i32::MAX ==> n == Some(
                next_number(self@.timestamps) as i32,
            ),
            next_number(self@.timestamps) > i32::MAX ==> n is None,
    {
        let len = self.timestamps.len();
        if len == 0 {
            Some(1)
        } else {
            self.timestamps[len - 1].id.checked_add(1)
        }
    }

    /// Adds the locations of a fixture, all or none. An id that is repeated
    /// among them, or is stored already, is a conflict.
    pub fn load_locations(&mut self, places: Vec<locations::Model>) -> (r: Result<
        (),
        ServiceError,
    >)
        requires
            old(self).wf(),
        ensures
            final(self).wf(),
            !distinct_locations(old(self)@.locations + places@) ==> r == Err::<(), ServiceError>(
                ServiceError::Conflict,
            ) && final(self)@ == old(self)@,
            distinct_locations(old(self)@.locations + places@) ==> r == Ok::<(), ServiceError>(())
                && final(self)@ == (StoreView {
                locations: old(self)@.locations + places@,
                ..old(self)@
            }),
    {
        let mut combined = self.locations.clone();
        let ghost stored = self@.locations;
        assert(combined@ =~= stored);
        let mut i: usize = 0;
        while i < places.len()
            invariant
                i <= places.len(),
                combined@ == stored + places@.take(i as int),
            decreases places.len() - i,
        {
            combined.push(places[i].clone());
            i = i + 1;
            proof {
                assert(combined@ =~= stored + places@.take(i as int));
            }
        }
        proof {
            assert(places@.take(places.len() as int) == places@);
        }
        if !locations_distinct(&combined) {
            return Err(ServiceError::Conflict);
        }
        proof {
            lemma_more_locations_keep_tables(self@, places@);
        }
        self.locations = combined;
        Ok(())
    }

    /// Adds the residents and the history of a fixture, all or none. The
    /// history is a list of scans, which are written as they stand, under the
    /// next numbers and dated `now`. A tag that is repeated or enrolled
    /// already is a conflict; otherwise a reference that does not resolve is
    /// a validation failure; otherwise a history too long to number makes the
    /// store unavailable.
    pub fn load_test_data(
        &mut self,
        people: Vec<residents::Model>,
        scans: Vec<PostTimestamp>,
        now: DateTime,
    ) -> (r: Result<(), ServiceError>)
        requires
            old(self).wf(),
        ensures
            final(self).wf(),
            load_fault(old(self)@, people@, scans@) matches Some(e) ==> r == Err::<
                (),
                ServiceError,
            >(e) && final(self)@ == old(self)@,
            load_fault(old(self)@, people@, scans@) is None ==> r == Ok::<(), ServiceError>(())
                && final(self)@ == (StoreView {
                locations: old(self)@.locations,
                residents: old(self)@.residents + people@,
                timestamps: old(self)@.timestamps + stamped(
                    next_number(old(self)@.timestamps),
                    scans@,
                    now,
                ),
            }),
    {
        let mut combined = self.residents.clone();
        let ghost stored = self@.residents;
        assert(combined@ =~= stored);
        let mut i: usize = 0;
        while i < people.len()
            invariant
                i <= people.len(),
                combined@ == stored + people@.take(i as int),
            decreases people.len() - i,
        {
            combined.push(people[i].clone());
            i = i + 1;
            proof {
                assert(combined@ =~= stored + people@.take(i as int));
            }
        }
        proof {
            assert(people@.take(people.len() as int) == people@);
        }
        if !residents_distinct(&combined) {
            return Err(ServiceError::Conflict);
        }
        if !(residents_resolve(&self.locations, &people) && scans_resolve(
            &self.locations,
            &combined,
            &scans,
        )) {
            return Err(ServiceError::Validation);
        }
        let last: i32 = if self.timestamps.len() == 0 {
            0
        } else {
            self.timestamps[self.timestamps.len() - 1].id
        };
        proof {
            if self.timestamps.len() > 0 {
                assert(self@.timestamps[self.timestamps.len() - 1].id >= 1);
            }
        }
        let room: usize = (0x7fff_ffff - last) as usize;
        if scans.len() > room {
            return Err(ServiceError::StoreUnavailable);
        }
        let ghost before = self@;
        let mut j: usize = 0;
        while j < scans.len()
            invariant
                j <= scans.len(),
                0 <= last,
                last + scans.len() <= i32::MAX,
                last + 1 == next_number(before.timestamps),
                self.locations@ == before.locations,
                self.residents@ == before.residents,
                self.timestamps@ == before.timestamps + stamped(
                    next_number(before.timestamps),
                    scans@,
                    now,
                ).take(j as int),
            decreases scans.len() - j,
        {
            let row = timestamps::Model {
                id: last + 1 + (j as i32),
                rfid: scans[j].rfid.clone(),
                location: scans[j].location,
                ts: now,
            };
            self.timestamps.push(row);
            j = j + 1;
            proof {
                assert(self.timestamps@ =~= before.timestamps + stamped(
                    next_number(before.timestamps),
                    scans@,
                    now,
                ).take(j as int));
            }
        }
        self.residents = combined;
        proof {
            let rows = stamped(next_number(before.timestamps), scans@, now);
            assert(rows.take(scans.len() as int) == rows);
            lemma_more_rows_keep_tables(before, people@, scans@, now);
        }
        Ok(())
    }

    /// Builds the store from the rows of the three tables as they were
    /// written. Rows with a repeated key, or a history that is not numbered
    /// in ascending order from 1 or above, are a conflict; otherwise a
    /// reference that does not resolve is a validation failure.
    pub fn from_tables(
        places: Vec<locations::Model>,
        people: Vec<residents::Model>,
        rows: Vec<timestamps::Model>,
    ) -> (r: Result<Store, ServiceError>)
        ensures
            tables_fault(places@, people@, rows@) matches Some(e) ==> r == Err::<
                Store,
                ServiceError,
            >(e),
            tables_fault(places@, people@, rows@) is None ==> r is Ok,
            r matches Ok(store) ==> store.wf() && store@ == (StoreView {
                locations: places@,
                residents: people@,
                timestamps: rows@,
            }),
    {
        if !(locations_distinct(&places) && residents_distinct(&people) && rows_numbered(&rows)) {
            return Err(ServiceError::Conflict);
        }
        if !(residents_resolve(&places, &people) && rows_resolve(&places, &rows)) {
            return Err(ServiceError::Validation);
        }
        Ok(Store { locations: places, residents: people, timestamps: rows })
    }

    /// Builds the store from fixtures: the locations, the residents, and the
    /// history as a list of scans, which are numbered from 1 in their order
    /// and all dated `now`. Fixtures with a repeated key are a conflict;
    /// otherwise a reference that does not resolve is a validation failure;
    /// otherwise a history too long to number makes the store unavailable.
    /// In the store that is built every home is a location, and every
    /// recorded location is the sentinel or a location.
    pub fn seed(
        places: Vec<locations::Model>,
        people: Vec<residents::Model>,
        scans: Vec<PostTimestamp>,
        now: DateTime,
    ) -> (r: Result<Store, ServiceError>)
        ensures
            fixture_fault(places@, people@, scans@) matches Some(e) ==> r == Err::<
                Store,
                ServiceError,
            >(e),
            fixture_fault(places@, people@, scans@) is None ==> r is Ok,
            r matches Ok(store) ==> {
                &&& store.wf()
                &&& store@.locations == places@
                &&& store@.residents == people@
                &&& store@.timestamps == stamped(1, scans@, now)
                &&& relation_kept(store@, Relation::Locations1)
                &&& relation_kept(store@, Relation::Locations2)
                &&& relation_kept(store@, Relation::Timestamps)
            },
    {
        let mut store = Store::new();
        let ghost empty = store@;
        proof {
            assert(empty.locations + places@ =~= places@);
            assert(empty.residents + people@ =~= people@);
            assert(empty.timestamps + stamped(1, scans@, now) =~= stamped(1, scans@, now));
        }
        match store.load_locations(places) {
            Err(e) => {
                return Err(e);
            },
            Ok(_) => {},
        }
        match store.load_test_data(people, scans, now) {
            Err(e) => {
                return Err(e);
            },
            Ok(_) => {},
        }
        proof {
            lemma_references_resolve(store@);
            assert forall|i: int| 0 <= i < store@.timestamps.len() implies is_enrolled(
                store@.residents,
                (#[trigger] store@.timestamps[i]).rfid@,
            ) by {
                assert(scan_resolves(places@, people@, scans@[i]));
            }
        }
        Ok(store)
    }

    /// The whole movement history, in the order of writing.
    pub fn list_timestamps(&self) -> (out: Vec<timestamps::Model>)
        ensures
            out@ == self@.timestamps,
    {
        let out = self.timestamps.clone();
        assert(out@ =~= self.timestamps@);
        out
    }

    /// Whether every row that takes part in the relation names a row that is
    /// there.
    pub fn holds(&self, relation: Relation) -> (b: bool)
        requires
            self.wf(),
        ensures
            b == relation_kept(self@, relation),
            relation != Relation::Timestamps ==> b,
    {
        match relation {
            Relation::Locations1 => {
                proof {
                    lemma_references_resolve(self@);
                }
                true
            },
            Relation::Locations2 => {
                proof {
                    lemma_references_resolve(self@);
                }
                true
            },
            Relation::Timestamps => {
                let mut i: usize = 0;
                while i < self.timestamps.len()
                    invariant
                        i <= self.timestamps.len(),
                        relation == Relation::Timestamps,
                        forall|k: int|
                            0 <= k < i ==> is_enrolled(
                                self.residents@,
                                (#[trigger] self.timestamps@[k]).rfid@,
                            ),
                    decreases self.timestamps.len() - i,
                {
                    if find_resident(&self.residents, &self.timestamps[i].rfid).is_none() {
                        assert(!is_enrolled(self@.residents, self@.timestamps[i as int].rfid@));
                        return false;
                    }
                    i = i + 1;
                }
                true
            },
        }
    }

    /// Adds one row to the movement history at the moment `now`, as it is
    /// given: the toggle rule plays no part and the resident's row stays. The
    /// row is refused on the grounds on which a scan is.
    pub fn append_row(&mut self, rfid: &String, location: i32, now: DateTime) -> (r: Result<
        timestamps::Model,
        ServiceError,
    >)
        requires
            old(self).wf(),
        ensures
            final(self).wf(),
            scan_refusal(old(self)@, PostTimestamp { rfid: *rfid, location }) matches Some(e)
                ==> r == Err::<timestamps::Model, ServiceError>(e) && final(self)@ == old(self)@,
            scan_refusal(old(self)@, PostTimestamp { rfid: *rfid, location }) is None ==> r == Ok::<
                timestamps::Model,
                ServiceError,
            >(
                timestamps::Model {
                    id: next_number(old(self)@.timestamps) as i32,
                    rfid: *rfid,
                    location,
                    ts: now,
                },
            ) && final(self)@ == (StoreView {
                timestamps: old(self)@.timestamps.push(r->Ok_0),
                ..old(self)@
            }),
    {
        if find_resident(&self.residents, rfid).is_none() {
            return Err(ServiceError::NotFound);
        }
        if !resolves(&self.locations, location) {
            return Err(ServiceError::Validation);
        }
        let number = match self.next_number() {
            Some(n) => n,
            None => {
                return Err(ServiceError::StoreUnavailable);
            },
        };
        let row = timestamps::Model { id: number, rfid: rfid.clone(), location, ts: now };
        let ghost before = self@.timestamps;
        self.timestamps.push(row.clone());
        proof {
            let after = self@.timestamps;
            assert forall|k: int| 0 <= k < after.len() implies (#[trigger] after[k]).id >= 1 by {
                if k < before.len() {
                    assert(after[k] == before[k]);
                } else if before.len() > 0 {
                    assert(before[before.len() - 1].id >= 1);
                }
            }
            assert forall|a: int, b: int| 0 <= a < b < after.len() implies (#[trigger] after[a]).id
                < (#[trigger] after[b]).id by {
                assert(after[a] == before[a]);
                if b < before.len() {
                    assert(after[b] == before[b]);
                } else if a < before.len() - 1 {
                    assert(before[a].id < before[before.len() - 1].id);
                }
            }
            assert forall|k: int| 0 <= k < after.len() implies place_resolves(
                self@.locations,
                (#[trigger] after[k]).location as int,
            ) by {
                if k < before.len() {
                    assert(after[k] == before[k]);
                }
            }
        }
        Ok(row)
    }

    /// Replaces the row of the resident who wears the same tag. The resident
    /// must be enrolled and the references of the new row must resolve;
    /// otherwise nothing changes.
    pub fn replace_resident(&mut self, row: &residents::Model) -> (r: Result<(), ServiceError>)
        requires
            old(self).wf(),
        ensures
            final(self).wf(),
            r == replacement(old(self)@, *row),
            r is Err ==> final(self)@ == old(self)@,
            r is Ok ==> final(self)@ == (StoreView {
                residents: old(self)@.residents.update(
                    enrolled_at(old(self)@.residents, row.rfid@),
                    *row,
                ),
                ..old(self)@
            }),
    {
        let at = match find_resident(&self.residents, &row.rfid) {
            Some(i) => i,
            None => {
                return Err(ServiceError::NotFound);
            },
        };
        if !(find_location(&self.locations, row.unit).is_some() && resolves(
            &self.locations,
            row.current_location,
        )) {
            return Err(ServiceError::Validation);
        }
        let ghost before = self@.residents;
        self.residents.set(at, row.clone());
        proof {
            let after = self@.residents;
            assert(after == before.update(at as int, *row));
            assert forall|a: int, b: int| 0 <= a < b < after.len() implies (#[trigger] after[a]).rfid@
                != (#[trigger] after[b]).rfid@ by {
                assert(before[a].rfid@ != before[b].rfid@);
            }
            assert forall|k: int| 0 <= k < after.len() implies resident_resolves(
                self@.locations,
                #[trigger] after[k],
            ) by {
                if k != at {
                    assert(resident_resolves(self@.locations, before[k]));
                }
            }
        }
        Ok(())
    }

    /// Records the resident who wears the tag at another location, with no
    /// row added to the history. The resident must be enrolled and the
    /// location must be the sentinel or a location; otherwise nothing changes.
    pub fn set_resident_location(&mut self, rfid: &String, location: i32) -> (r: Result<
        residents::Model,
        ServiceError,
    >)
        requires
            old(self).wf(),
        ensures
            final(self).wf(),
            !is_enrolled(old(self)@.residents, rfid@) ==> r == Err::<
                residents::Model,
                ServiceError,
            >(ServiceError::NotFound),
            is_enrolled(old(self)@.residents, rfid@) && !place_resolves(
                old(self)@.locations,
                location as int,
            ) ==> r == Err::<residents::Model, ServiceError>(ServiceError::Validation),
            is_enrolled(old(self)@.residents, rfid@) && place_resolves(
                old(self)@.locations,
                location as int,
            ) ==> r == Ok::<residents::Model, ServiceError>(
                old(self)@.residents[enrolled_at(old(self)@.residents, rfid@)].moved_to(location),
            ),
            r is Err ==> final(self)@ == old(self)@,
            r matches Ok(moved) ==> final(self)@ == (StoreView {
                residents: old(self)@.residents.update(
                    enrolled_at(old(self)@.residents, rfid@),
                    moved,
                ),
                ..old(self)@
            }),
    {
        let at = match find_resident(&self.residents, rfid) {
            Some(i) => i,
            None => {
                return Err(ServiceError::NotFound);
            },
        };
        if !resolves(&self.locations, location) {
            return Err(ServiceError::Validation);
        }
        let stored = &self.residents[at];
        let moved = residents::Model {
            rfid: stored.rfid.clone(),
            name: stored.name.clone(),
            doc: stored.doc.clone(),
            room: stored.room.clone(),
            unit: stored.unit,
            current_location: location,
            level: stored.level,
        };
        let ghost before = self@.residents;
        self.residents.set(at, moved.clone());
        proof {
            let after = self@.residents;
            assert(after == before.update(at as int, moved));
            assert forall|a: int, b: int| 0 <= a < b < after.len() implies (#[trigger] after[a]).rfid@
                != (#[trigger] after[b]).rfid@ by {
                assert(before[a].rfid@ != before[b].rfid@);
            }
            assert forall|k: int| 0 <= k < after.len() implies resident_resolves(
                self@.locations,
                #[trigger] after[k],
            ) by {
                assert(resident_resolves(self@.locations, before[k]));
            }
        }
        Ok(moved)
    }
}

} // verus!
