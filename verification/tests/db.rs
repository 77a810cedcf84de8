use scan_mvcf::calendar::{Date, DateTime};
use scan_mvcf::database::db::{migrations, query, row_id, seed_test_data, Query, QueryResult};
use scan_mvcf::entity::{locations, residents, timestamps};
use scan_mvcf::error::ServiceError;
use scan_mvcf::models::locations::Location;
use scan_mvcf::models::timestamps::PostTimestamp;
use scan_mvcf::store::Store;

fn person(rfid: &str, unit: i32, current: i32) -> residents::Model {
    residents::Model::new(
        rfid.to_string(),
        "Name".to_string(),
        "100".to_string(),
        "A-1".to_string(),
        unit,
        current,
    )
}

fn noon() -> DateTime {
    DateTime::new(2023, 11, 20, 12, 0, 0)
}

fn seeded() -> Store {
    let mut store = Store::new();
    let places = vec![
        Location::new(4, "ASU".to_string()),
        Location::new(9, "CHAPLAINS OFFICE".to_string()),
        Location::new(14, "DELTA UNIT".to_string()),
    ];
    assert_eq!(query(&mut store, Query::Migrations(&places), noon()), Ok(QueryResult::Success));
    let people = vec![person("A", 14, 0), person("B", 4, 9)];
    let scans = vec![PostTimestamp::new("A".to_string(), 9)];
    assert_eq!(
        query(&mut store, Query::SeedTestData(&people, &scans), noon()),
        Ok(QueryResult::Success)
    );
    store
}

#[test]
fn migrations_store_locations_with_the_default_level() {
    let store = seeded();
    assert_eq!(
        store.list_locations(),
        vec![
            locations::Model { id: 4, name: "ASU".to_string(), level: 2 },
            locations::Model { id: 9, name: "CHAPLAINS OFFICE".to_string(), level: 2 },
            locations::Model { id: 14, name: "DELTA UNIT".to_string(), level: 2 },
        ]
    );
}

#[test]
fn migrations_refuse_bad_fixtures() {
    let mut store = seeded();
    let repeated = vec![Location::new(20, "GYM".to_string()), Location::new(4, "ASU".to_string())];
    assert_eq!(migrations(&mut store, &repeated), Err(ServiceError::Conflict));
    let twice = vec![Location::new(20, "GYM".to_string()), Location::new(20, "GYM".to_string())];
    assert_eq!(migrations(&mut store, &twice), Err(ServiceError::Conflict));
    let too_big = vec![Location::new(4, "ASU".to_string()), Location::new(usize::MAX, "X".to_string())];
    assert_eq!(migrations(&mut store, &too_big), Err(ServiceError::Validation));
    assert_eq!(store.list_locations().len(), 3);
    assert_eq!(migrations(&mut store, &Vec::new()), Ok(()));
}

#[test]
fn seed_test_data_numbers_on_from_the_history() {
    let mut store = seeded();
    let people = vec![person("C", 9, 0)];
    let scans = vec![PostTimestamp::new("C".to_string(), 4), PostTimestamp::new("B".to_string(), 0)];
    assert_eq!(seed_test_data(&mut store, &people, &scans, noon()), Ok(()));
    let rows = store.list_timestamps();
    assert_eq!(rows.len(), 3);
    assert_eq!(rows[1], timestamps::Model::new(2, "C".to_string(), 4, noon()));
    assert_eq!(rows[2], timestamps::Model::new(3, "B".to_string(), 0, noon()));
    assert_eq!(
        seed_test_data(&mut store, &people, &Vec::new(), noon()),
        Err(ServiceError::Conflict)
    );
}

#[test]
fn query_reads_residents() {
    let mut store = seeded();
    assert_eq!(
        query(&mut store, Query::IndexResidents, noon()),
        Ok(QueryResult::Residents(vec![person("A", 14, 0), person("B", 4, 9)]))
    );
    assert_eq!(
        query(&mut store, Query::ShowResident(&"B".to_string()), noon()),
        Ok(QueryResult::Resident(person("B", 4, 9)))
    );
    assert_eq!(
        query(&mut store, Query::ShowResident(&"Z".to_string()), noon()),
        Err(ServiceError::NotFound)
    );
    assert_eq!(
        query(&mut store, Query::ShowLocationResidents(4), noon()),
        Ok(QueryResult::Residents(vec![person("B", 4, 9)]))
    );
    assert_eq!(
        query(&mut store, Query::ShowLocationResidents(9), noon()),
        Ok(QueryResult::Residents(vec![]))
    );
    assert_eq!(
        query(&mut store, Query::ShowLocationResidents(usize::MAX), noon()),
        Ok(QueryResult::Residents(vec![]))
    );
}

#[test]
fn query_writes_residents() {
    let mut store = seeded();
    let new = person("C", 9, 9);
    assert_eq!(query(&mut store, Query::StoreResident(&new), noon()), Ok(QueryResult::Success));
    assert_eq!(
        query(&mut store, Query::StoreResident(&new), noon()),
        Err(ServiceError::Conflict)
    );
    assert_eq!(
        query(&mut store, Query::StoreResident(&person("D", 77, 0)), noon()),
        Err(ServiceError::Validation)
    );
    let changed = person("C", 4, 0);
    assert_eq!(query(&mut store, Query::UpdateResident(&changed), noon()), Ok(QueryResult::Success));
    assert_eq!(store.get_resident(&"C".to_string()), Ok(person("C", 4, 0)));
    assert_eq!(
        query(&mut store, Query::UpdateResident(&person("Z", 4, 0)), noon()),
        Err(ServiceError::NotFound)
    );
    assert_eq!(
        query(&mut store, Query::UpdateResidentLocation(&person("C", 0, 14)), noon()),
        Ok(QueryResult::Success)
    );
    assert_eq!(store.get_resident(&"C".to_string()), Ok(person("C", 4, 14)));
    assert_eq!(
        query(&mut store, Query::UpdateResidentLocation(&person("C", 0, 77)), noon()),
        Err(ServiceError::Validation)
    );
    assert_eq!(
        query(&mut store, Query::DestroyResident("C".to_string()), noon()),
        Ok(QueryResult::Success)
    );
    assert_eq!(
        query(&mut store, Query::DestroyResident("C".to_string()), noon()),
        Err(ServiceError::NotFound)
    );
    assert_eq!(store.list_residents().len(), 2);
}

#[test]
fn query_reads_and_writes_locations() {
    let mut store = seeded();
    assert_eq!(
        query(&mut store, Query::ShowLocation(4), noon()),
        Ok(QueryResult::Location(locations::Model { id: 4, name: "ASU".to_string(), level: 2 }))
    );
    assert_eq!(query(&mut store, Query::ShowLocation(5), noon()), Err(ServiceError::NotFound));
    assert_eq!(
        query(&mut store, Query::ShowLocation(usize::MAX), noon()),
        Err(ServiceError::NotFound)
    );
    let gym = Location::new(19, "GYM".to_string());
    assert_eq!(query(&mut store, Query::StoreLocation(&gym), noon()), Ok(QueryResult::Success));
    assert_eq!(query(&mut store, Query::StoreLocation(&gym), noon()), Err(ServiceError::Conflict));
    let beyond = Location::new(usize::MAX, "X".to_string());
    assert_eq!(
        query(&mut store, Query::StoreLocation(&beyond), noon()),
        Err(ServiceError::Validation)
    );
    match query(&mut store, Query::IndexLocations, noon()) {
        Ok(QueryResult::Locations(rows)) => {
            assert_eq!(rows.len(), 4);
            assert_eq!(rows[3], locations::Model { id: 19, name: "GYM".to_string(), level: 2 });
        }
        other => panic!("unexpected answer: {:?}", other),
    }
}

#[test]
fn query_reads_and_writes_the_history() {
    let mut store = seeded();
    let later = DateTime::new(2023, 11, 21, 7, 0, 0);
    let given = timestamps::Model::new(0, "B".to_string(), 14, DateTime::new(1999, 1, 1, 0, 0, 0));
    assert_eq!(query(&mut store, Query::StoreTimestamp(&given), later), Ok(QueryResult::Success));
    let written = timestamps::Model::new(2, "B".to_string(), 14, later);
    let seeded_row = timestamps::Model::new(1, "A".to_string(), 9, noon());
    assert_eq!(store.list_timestamps(), vec![seeded_row.clone(), written.clone()]);
    let unknown = timestamps::Model::new(0, "Z".to_string(), 14, later);
    assert_eq!(
        query(&mut store, Query::StoreTimestamp(&unknown), later),
        Err(ServiceError::NotFound)
    );
    assert_eq!(
        query(&mut store, Query::IndexTimestamps, later),
        Ok(QueryResult::TimeStamps(vec![written.clone()]))
    );
    assert_eq!(
        query(&mut store, Query::IndexTimestamps, noon()),
        Ok(QueryResult::TimeStamps(vec![seeded_row.clone()]))
    );
    let start = Date::new(2023, 11, 20);
    let end = Date::new(2023, 11, 21);
    assert_eq!(
        query(&mut store, Query::ShowTimestamps(&start, &end), noon()),
        Ok(QueryResult::TimeStamps(vec![written.clone(), seeded_row.clone()]))
    );
    assert_eq!(
        query(&mut store, Query::ShowTimestamps(&end, &start), noon()),
        Ok(QueryResult::TimeStamps(vec![]))
    );
    assert_eq!(
        query(&mut store, Query::ShowResidentTimestamps("A".to_string()), noon()),
        Ok(QueryResult::TimeStamps(vec![seeded_row.clone()]))
    );
    assert_eq!(
        query(&mut store, Query::ShowResidentTimestamps("A".to_string()), later),
        Ok(QueryResult::TimeStamps(vec![]))
    );
    assert_eq!(
        query(
            &mut store,
            Query::ShowResidentTimestampsRange(&"B".to_string(), &start, &end),
            noon()
        ),
        Ok(QueryResult::TimeStamps(vec![written.clone()]))
    );
    assert_eq!(
        query(&mut store, Query::ShowLocationTimestamps(9), noon()),
        Ok(QueryResult::TimeStamps(vec![seeded_row.clone()]))
    );
    assert_eq!(
        query(&mut store, Query::ShowLocationTimestampsRange(14, &start, &end), noon()),
        Ok(QueryResult::TimeStamps(vec![written.clone()]))
    );
    assert_eq!(
        query(&mut store, Query::ShowLocationTimestampsRange(usize::MAX, &start, &end), noon()),
        Ok(QueryResult::TimeStamps(vec![]))
    );
    assert_eq!(
        query(&mut store, Query::ShowLocationTimestamps(usize::MAX), noon()),
        Ok(QueryResult::TimeStamps(vec![]))
    );
}

#[test]
fn row_id_fits_or_is_none() {
    assert_eq!(row_id(0), Some(0));
    assert_eq!(row_id(2147483647), Some(i32::MAX));
    assert_eq!(row_id(2147483648), None);
}
