use scan_mvcf::calendar::{Date, DateTime, RangeParams};
use scan_mvcf::controllers::locations_controller::{self, Id, LocationRange, Params};
use scan_mvcf::controllers::residents_controller;
use scan_mvcf::controllers::timestamps_controller::{self, FilterOpts};
use scan_mvcf::entity::{locations, residents};
use scan_mvcf::models::residents::{Rfid, UpdateResident};
use scan_mvcf::models::timestamps::PostTimestamp;
use scan_mvcf::store::Store;

fn place(id: i32, name: &str) -> locations::Model {
    locations::Model::new(id, name.to_string())
}

fn person(rfid: &str, name: &str, unit: i32, current: i32) -> residents::Model {
    residents::Model::new(
        rfid.to_string(),
        name.to_string(),
        "29752".to_string(),
        "C-8".to_string(),
        unit,
        current,
    )
}

fn seeded() -> Store {
    let places = vec![
        place(1, "ALPHA UNIT"),
        place(4, "ASU"),
        place(8, "CHARLIE UNIT CLASSROOM"),
        place(9, "CHAPLAINS OFFICE"),
        place(13, "D BOARDS"),
        place(14, "DELTA UNIT"),
    ];
    let people = vec![
        person("111111111111111", "First Resident", 14, 0),
        person("222222222222222", "Second Resident", 8, 13),
    ];
    let scans = vec![
        PostTimestamp::new("111111111111111".to_string(), 13),
        PostTimestamp::new("222222222222222".to_string(), 8),
    ];
    Store::seed(places, people, scans, DateTime::new(2023, 11, 20, 10, 30, 0)).unwrap()
}

fn no_options() -> FilterOpts {
    FilterOpts { unique: None, per_page: None }
}

#[test]
fn test_residents_index() {
    let store = seeded();
    let response = residents_controller::index(&store);
    assert_eq!(response.status, 200);
}

#[test]
fn test_residents_show() {
    let store = seeded();
    let resident_id = "111111111111111";
    let response = residents_controller::show(&store, Rfid { rfid: resident_id.to_string() });
    assert_eq!(response.status, 200);
}

#[test]
fn test_residents_create() {
    let mut store = seeded();
    let fake_resident = residents::Model {
        rfid: "338888222889999".to_string(),
        name: "Fake resident".to_string(),
        doc: "29752".to_string(),
        room: "C-8".to_string(),
        unit: 4,
        current_location: 4,
        level: 4,
    };
    let resp = residents_controller::store(&mut store, fake_resident);
    assert_eq!(resp.status, 200);
}

#[test]
fn test_residents_update() {
    let mut store = seeded();
    let resident_id = "111111111111111";
    let updated_data = UpdateResident { name: Some("Updated Name".to_string()), ..Default::default() };
    let response =
        residents_controller::update(&mut store, Rfid { rfid: resident_id.to_string() }, updated_data);
    assert_eq!(response.status, 200);
}

#[test]
fn test_residents_delete() {
    let mut store = seeded();
    let resident_id = "111111111111111";
    let response = residents_controller::destroy(&mut store, resident_id.to_string());
    assert_eq!(response.status, 200);
}

#[test]
fn test_locations_index() {
    let store = seeded();
    let response = locations_controller::index(&store);
    assert_eq!(response.status, 200);
}

#[test]
fn test_locations_show() {
    let store = seeded();
    let response = locations_controller::show(&store, Id { location_id: 4 });
    assert_eq!(response.status, 200);
    assert_eq!(response.body.unwrap().data.unwrap()[0].name, "ASU");
}

#[test]
fn test_locations_create() {
    let mut store = seeded();
    let fake_location = locations::Model { id: 69, name: "Fake Location".to_string(), level: 2 };
    let resp = locations_controller::store(&mut store, fake_location);
    assert_eq!(resp.status, 200);
}

#[test]
fn test_locations_timestamps() {
    let store = seeded();
    let response = locations_controller::show_location_timestamps(
        &store,
        Id { location_id: 8 },
        no_options(),
    );
    assert_eq!(response.status, 200);
    assert!(response.body.unwrap().data.is_some());
}

#[test]
fn test_locations_timestamps_between() {
    let store = seeded();
    let range = LocationRange::parse(13, "2023-11-10", "2023-11-30").unwrap();
    let response = locations_controller::show_location_timestamps_range(&store, range);
    assert_eq!(response.status, 200);
}

#[test]
fn test_locations_residents() {
    let store = seeded();
    let response = locations_controller::show_location_residents(
        &store,
        Id { location_id: 8 },
        Params { current: None },
    );
    assert_eq!(response.status, 200);
}

#[test]
fn test_timestamps_index() {
    let store = seeded();
    let response = timestamps_controller::index_timestamps(&store, no_options());
    assert_eq!(response.status, 200);
}

#[test]
fn test_timestamps_index_unique() {
    let store = seeded();
    let response = timestamps_controller::index_timestamps(
        &store,
        FilterOpts { unique: Some(true), per_page: None },
    );
    assert_eq!(response.status, 200);
}

#[test]
fn test_timestamps_post() {
    let mut store = seeded();
    let data = PostTimestamp::new("111111111111111".to_string(), 9);
    let response = timestamps_controller::store_timestamp(&mut store, data);
    assert_eq!(response.status, 200);
    let rows = response.body.unwrap().data.unwrap();
    assert_eq!(format!("'{}'", rows[0].resident.rfid), "'111111111111111'");
}

#[test]
fn test_timestamps_between() {
    let store = seeded();
    let range = RangeParams::parse("2023-11-18", "2023-11-30").unwrap();
    let response = timestamps_controller::show_range(&store, range);
    assert_eq!(response.status, 200);
}

#[test]
fn locations_timestamps_between_holds_the_rows_of_the_range() {
    let store = seeded();
    let range = LocationRange::parse(13, "2023-11-10", "2023-11-30").unwrap();
    let response = locations_controller::show_location_timestamps_range(&store, range);
    let rows = response.body.unwrap().data.unwrap();
    assert_eq!(rows.len(), 1);
    assert_eq!(rows[0].rfid, "111111111111111");
    assert_eq!(rows[0].location, 13);
    assert_eq!(rows[0].id, 1);
}

#[test]
fn residents_of_a_location_by_home_and_by_presence() {
    let store = seeded();
    let by_home = locations_controller::show_location_residents(
        &store,
        Id { location_id: 8 },
        Params { current: None },
    );
    let rows = by_home.body.unwrap().data.unwrap();
    assert_eq!(rows.len(), 1);
    assert_eq!(rows[0].rfid, "222222222222222");
    let present = locations_controller::show_location_residents(
        &store,
        Id { location_id: 13 },
        Params { current: Some(true) },
    );
    let rows = present.body.unwrap().data.unwrap();
    assert_eq!(rows.len(), 1);
    assert_eq!(rows[0].rfid, "222222222222222");
    let nobody = locations_controller::show_location_residents(
        &store,
        Id { location_id: 13 },
        Params { current: Some(false) },
    );
    assert_eq!(nobody.body.unwrap().data.unwrap().len(), 0);
}

#[test]
fn unknown_resident_is_not_found() {
    let store = seeded();
    let response = residents_controller::show(&store, Rfid { rfid: "999".to_string() });
    assert_eq!(response.status, 404);
    let envelope = response.body.unwrap_err();
    assert!(!envelope.success);
    assert_eq!(envelope.message, "Error retrieving residents");
    assert_eq!(envelope.data, None);
}

#[test]
fn unknown_location_is_not_found() {
    let store = seeded();
    let response = locations_controller::show(&store, Id { location_id: 5 });
    assert_eq!(response.status, 404);
    assert_eq!(response.body.unwrap_err().message, "Error retrieving location");
    let beyond = locations_controller::show(&store, Id { location_id: usize::MAX });
    assert_eq!(beyond.status, 404);
}

#[test]
fn enrolling_a_tag_twice_is_a_conflict() {
    let mut store = seeded();
    let again = person("111111111111111", "Double", 14, 0);
    let response = residents_controller::store(&mut store, again);
    assert_eq!(response.status, 409);
    assert_eq!(response.body.unwrap_err().message, "Error adding resident");
    assert_eq!(store.list_residents().len(), 2);
}

#[test]
fn enrolling_with_an_unknown_home_is_a_validation_failure() {
    let mut store = seeded();
    let lost = person("333", "Lost", 77, 0);
    let response = residents_controller::store(&mut store, lost);
    assert_eq!(response.status, 400);
    assert_eq!(store.list_residents().len(), 2);
}

#[test]
fn storing_a_location_id_twice_is_a_conflict() {
    let mut store = seeded();
    let response = locations_controller::store(&mut store, place(4, "ASU again"));
    assert_eq!(response.status, 409);
    assert_eq!(response.body.unwrap_err().message, "Error adding location");
    assert_eq!(store.list_locations().len(), 6);
}

#[test]
fn stored_location_gets_the_default_level() {
    let mut store = seeded();
    let given = locations::Model { id: 69, name: "Fake Location".to_string(), level: 7 };
    let response = locations_controller::store(&mut store, given);
    assert_eq!(response.body.unwrap().message, "Location successfully added");
    let stored = store.get_location(69).unwrap();
    assert_eq!(stored.level, 2);
    assert_eq!(stored.name, "Fake Location");
}

#[test]
fn update_replaces_only_the_given_fields() {
    let mut store = seeded();
    let updated_data = UpdateResident { name: Some("Updated Name".to_string()), ..Default::default() };
    let response = residents_controller::update(
        &mut store,
        Rfid { rfid: "111111111111111".to_string() },
        updated_data,
    );
    assert_eq!(response.body.unwrap().message, "Resident Updated Successfully");
    let row = store.get_resident(&"111111111111111".to_string()).unwrap();
    assert_eq!(row.name, "Updated Name");
    assert_eq!(row.doc, "29752");
    assert_eq!(row.room, "C-8");
    assert_eq!(row.unit, 14);
    assert_eq!(row.current_location, 0);
    assert_eq!(row.level, 4);
}

#[test]
fn update_of_an_unknown_resident_is_not_found() {
    let mut store = seeded();
    let response = residents_controller::update(
        &mut store,
        Rfid { rfid: "999".to_string() },
        UpdateResident::default(),
    );
    assert_eq!(response.status, 404);
    assert_eq!(response.body.unwrap_err().message, "Error retrieving resident");
}

#[test]
fn update_to_an_unknown_home_is_refused() {
    let mut store = seeded();
    let response = residents_controller::update(
        &mut store,
        Rfid { rfid: "111111111111111".to_string() },
        UpdateResident { unit: Some(77), ..Default::default() },
    );
    assert_eq!(response.status, 400);
    assert_eq!(response.body.unwrap_err().message, "Error updating resident");
    assert_eq!(store.get_resident(&"111111111111111".to_string()).unwrap().unit, 14);
}

#[test]
fn delete_removes_the_resident_and_keeps_the_history() {
    let mut store = seeded();
    let response = residents_controller::destroy(&mut store, "111111111111111".to_string());
    assert_eq!(response.body.unwrap().message, "Deleted resident: 111111111111111");
    assert_eq!(store.list_residents().len(), 1);
    assert_eq!(store.list_timestamps().len(), 2);
    let again = residents_controller::destroy(&mut store, "111111111111111".to_string());
    assert_eq!(again.status, 404);
    assert_eq!(again.body.unwrap_err().message, "Error deleting resident");
}

#[test]
fn scan_for_an_unknown_tag_is_refused_and_writes_nothing() {
    let mut store = seeded();
    let before_people = store.list_residents();
    let before_rows = store.list_timestamps();
    let response = timestamps_controller::store_timestamp(
        &mut store,
        PostTimestamp::new("999999999999999".to_string(), 9),
    );
    assert_eq!(response.status, 404);
    let envelope = response.body.unwrap_err();
    assert!(!envelope.success);
    assert_eq!(
        envelope.message,
        "Error retrieving resident: Not found in system, please add Resident."
    );
    assert_eq!(store.list_residents(), before_people);
    assert_eq!(store.list_timestamps(), before_rows);
}

#[test]
fn scan_at_an_unknown_location_is_refused_and_writes_nothing() {
    let mut store = seeded();
    let response = timestamps_controller::store_timestamp_at(
        &mut store,
        PostTimestamp::new("111111111111111".to_string(), 77),
        DateTime::new(2023, 11, 21, 8, 0, 0),
    );
    assert_eq!(response.status, 400);
    assert_eq!(store.list_timestamps().len(), 2);
    assert_eq!(store.get_resident(&"111111111111111".to_string()).unwrap().current_location, 0);
}

#[test]
fn scan_twice_at_one_location_returns_home() {
    let mut store = seeded();
    let first = timestamps_controller::store_timestamp_at(
        &mut store,
        PostTimestamp::new("111111111111111".to_string(), 9),
        DateTime::new(2023, 11, 21, 8, 0, 0),
    );
    let rows = first.body.unwrap().data.unwrap();
    assert_eq!(rows.len(), 1);
    assert_eq!(rows[0].resident.current_location, 9);
    assert_eq!(rows[0].timestamp.location, 9);
    assert_eq!(rows[0].timestamp.id, 3);
    assert_eq!(rows[0].timestamp.ts, DateTime::new(2023, 11, 21, 8, 0, 0));
    let second = timestamps_controller::store_timestamp_at(
        &mut store,
        PostTimestamp::new("111111111111111".to_string(), 9),
        DateTime::new(2023, 11, 21, 8, 5, 0),
    );
    let rows = second.body.unwrap().data.unwrap();
    assert_eq!(rows[0].resident.current_location, 0);
    assert_eq!(rows[0].timestamp.location, 0);
    assert_eq!(rows[0].timestamp.id, 4);
    assert_eq!(store.get_resident(&"111111111111111".to_string()).unwrap().current_location, 0);
    assert_eq!(store.list_timestamps().len(), 4);
}

#[test]
fn index_of_a_day_holds_that_day_only() {
    let mut store = seeded();
    timestamps_controller::store_timestamp_at(
        &mut store,
        PostTimestamp::new("111111111111111".to_string(), 9),
        DateTime::new(2023, 11, 21, 8, 0, 0),
    );
    let today = timestamps_controller::index_timestamps_on(
        &store,
        no_options(),
        Date::new(2023, 11, 21),
    );
    let rows = today.body.unwrap().data.unwrap();
    assert_eq!(rows.len(), 1);
    assert_eq!(rows[0].location, 9);
    let yesterday = timestamps_controller::index_timestamps_on(
        &store,
        no_options(),
        Date::new(2023, 11, 20),
    );
    assert_eq!(yesterday.body.unwrap().data.unwrap().len(), 2);
}

#[test]
fn index_hands_out_pages_of_fifteen_rows() {
    let mut store = seeded();
    for minute in 0..20u32 {
        let target = if minute % 2 == 0 { 9 } else { 13 };
        timestamps_controller::store_timestamp_at(
            &mut store,
            PostTimestamp::new("111111111111111".to_string(), target),
            DateTime::new(2023, 11, 22, 9, minute, 0),
        );
    }
    let day = Date::new(2023, 11, 22);
    let first = timestamps_controller::index_timestamps_on(&store, no_options(), day);
    let rows = first.body.unwrap().data.unwrap();
    assert_eq!(rows.len(), 15);
    assert_eq!(rows[0].ts, DateTime::new(2023, 11, 22, 9, 19, 0));
    assert_eq!(rows[14].ts, DateTime::new(2023, 11, 22, 9, 5, 0));
    let second = timestamps_controller::index_timestamps_on(
        &store,
        FilterOpts { unique: None, per_page: Some(1) },
        day,
    );
    let rows = second.body.unwrap().data.unwrap();
    assert_eq!(rows.len(), 5);
    assert_eq!(rows[0].ts, DateTime::new(2023, 11, 22, 9, 4, 0));
    let third = timestamps_controller::index_timestamps_on(
        &store,
        FilterOpts { unique: None, per_page: Some(2) },
        day,
    );
    assert_eq!(third.body.unwrap().data.unwrap().len(), 0);
    let far = timestamps_controller::index_timestamps_on(
        &store,
        FilterOpts { unique: None, per_page: Some(u64::MAX) },
        day,
    );
    assert_eq!(far.body.unwrap().data.unwrap().len(), 0);
}

#[test]
fn history_of_a_resident_on_a_day_and_over_a_range() {
    let mut store = seeded();
    timestamps_controller::store_timestamp_at(
        &mut store,
        PostTimestamp::new("111111111111111".to_string(), 9),
        DateTime::new(2023, 11, 21, 8, 0, 0),
    );
    let day = residents_controller::show_resident_timestamps_on(
        &store,
        Rfid { rfid: "111111111111111".to_string() },
        Date::new(2023, 11, 21),
    );
    let rows = day.body.unwrap().data.unwrap();
    assert_eq!(rows.len(), 1);
    assert_eq!(rows[0].location, 9);
    let params = scan_mvcf::models::residents::PathParams::parse(
        "111111111111111".to_string(),
        "2023-11-10",
        "2023-11-30",
    )
    .unwrap();
    let range = residents_controller::show_resident_timestamps_range(&store, params);
    let rows = range.body.unwrap().data.unwrap();
    assert_eq!(rows.len(), 2);
    assert_eq!(rows[0].location, 9);
    assert_eq!(rows[1].location, 13);
    let now = residents_controller::show_resident_timestamps(
        &store,
        Rfid { rfid: "111111111111111".to_string() },
    );
    assert_eq!(now.status, 200);
}

#[test]
fn history_of_a_location_collapses_to_one_row_for_each_resident() {
    let mut store = seeded();
    for (tag, minute) in [("111111111111111", 0u32), ("222222222222222", 1), ("111111111111111", 2)] {
        store
            .append_row(&tag.to_string(), 9, DateTime::new(2023, 11, 23, 7, minute, 0))
            .unwrap();
    }
    let day = Date::new(2023, 11, 23);
    let all = locations_controller::show_location_timestamps_on(
        &store,
        Id { location_id: 9 },
        no_options(),
        day,
    );
    assert_eq!(all.body.unwrap().data.unwrap().len(), 3);
    let unique = locations_controller::show_location_timestamps_on(
        &store,
        Id { location_id: 9 },
        FilterOpts { unique: Some(true), per_page: None },
        day,
    );
    let rows = unique.body.unwrap().data.unwrap();
    assert_eq!(rows.len(), 2);
    assert_eq!(rows[0].rfid, "111111111111111");
    assert_eq!(rows[0].ts, DateTime::new(2023, 11, 23, 7, 2, 0));
    assert_eq!(rows[1].rfid, "222222222222222");
    assert_eq!(rows[1].ts, DateTime::new(2023, 11, 23, 7, 1, 0));
}
