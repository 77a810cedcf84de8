use scan_mvcf::calendar::{Date, DateTime, RangeParams};
use scan_mvcf::entity::timestamps::Model;
use scan_mvcf::history::{latest_per_resident, names_resident, order_newest_first, select, Criteria};

fn row(id: i32, rfid: &str, location: i32, day: u32, hour: u32) -> Model {
    Model::new(id, rfid.to_string(), location, DateTime::new(2023, 11, day, hour, 0, 0))
}

fn november() -> RangeParams {
    RangeParams::new(Date::new(2023, 11, 1), Date::new(2023, 11, 30))
}

#[test]
fn select_keeps_the_rows_of_the_range_in_table_order() {
    let rows = vec![
        row(1, "A", 9, 9, 12),
        row(2, "B", 9, 10, 0),
        row(3, "A", 13, 30, 23),
        Model::new(4, "A".to_string(), 9, DateTime::new(2023, 12, 1, 0, 0, 0)),
        Model::new(5, "B".to_string(), 9, DateTime::new(2023, 11, 30, 23, 59, 59)),
    ];
    let range = RangeParams::new(Date::new(2023, 11, 10), Date::new(2023, 11, 30));
    let out = select(&rows, &Criteria::everywhere(range));
    let ids: Vec<i32> = out.iter().map(|r| r.id).collect();
    assert_eq!(ids, vec![2, 3, 5]);
}

#[test]
fn select_by_resident_and_by_location() {
    let rows = vec![row(1, "A", 9, 9, 12), row(2, "B", 9, 10, 0), row(3, "A", 13, 30, 23)];
    let of_a = select(&rows, &Criteria::of_resident(&"A".to_string(), november()));
    assert_eq!(of_a, vec![row(1, "A", 9, 9, 12), row(3, "A", 13, 30, 23)]);
    let at_nine = select(&rows, &Criteria::at_location(9, november()));
    assert_eq!(at_nine, vec![row(1, "A", 9, 9, 12), row(2, "B", 9, 10, 0)]);
    let both = Criteria { rfid: Some("B".to_string()), location: Some(9), range: november() };
    assert_eq!(select(&rows, &both), vec![row(2, "B", 9, 10, 0)]);
}

#[test]
fn select_matches_the_whole_tag_only() {
    let rows = vec![row(1, "111", 9, 9, 12), row(2, "1", 9, 10, 0), row(3, "11", 9, 11, 0)];
    let out = select(&rows, &Criteria::of_resident(&"11".to_string(), november()));
    assert_eq!(out, vec![row(3, "11", 9, 11, 0)]);
}

#[test]
fn select_with_no_match_is_empty() {
    let rows = vec![row(1, "A", 9, 9, 12)];
    assert!(select(&rows, &Criteria::of_resident(&"Z".to_string(), november())).is_empty());
    assert!(select(&Vec::new(), &Criteria::everywhere(november())).is_empty());
}

#[test]
fn order_puts_the_newest_first() {
    let rows = vec![row(1, "A", 9, 9, 12), row(2, "B", 9, 30, 0), row(3, "A", 13, 10, 23)];
    let out = order_newest_first(&rows);
    let ids: Vec<i32> = out.iter().map(|r| r.id).collect();
    assert_eq!(ids, vec![2, 3, 1]);
}

#[test]
fn order_keeps_rows_of_one_moment_in_their_order() {
    let rows = vec![
        row(1, "A", 9, 9, 12),
        row(2, "B", 9, 9, 12),
        row(3, "C", 9, 10, 12),
        row(4, "D", 9, 9, 12),
    ];
    let out = order_newest_first(&rows);
    let ids: Vec<i32> = out.iter().map(|r| r.id).collect();
    assert_eq!(ids, vec![3, 1, 2, 4]);
    assert!(order_newest_first(&Vec::new()).is_empty());
}

#[test]
fn order_leaves_ordered_rows_alone() {
    let rows = vec![row(3, "A", 9, 12, 12), row(2, "B", 9, 11, 12), row(1, "C", 9, 10, 12)];
    assert_eq!(order_newest_first(&rows), rows);
}

#[test]
fn unique_keeps_the_latest_row_of_each_resident() {
    let t1 = row(1, "A", 9, 10, 8);
    let t2 = row(2, "A", 13, 10, 9);
    let t3 = row(3, "B", 9, 10, 7);
    let ordered = order_newest_first(&vec![t1.clone(), t2.clone(), t3.clone()]);
    let out = latest_per_resident(&ordered);
    assert_eq!(out, vec![t2, t3]);
}

#[test]
fn unique_keeps_the_first_row_of_each_tag_in_the_order_given() {
    let rows = vec![
        row(1, "A", 9, 10, 8),
        row(2, "B", 9, 10, 9),
        row(3, "A", 9, 10, 10),
        row(4, "C", 9, 10, 11),
        row(5, "B", 9, 10, 12),
    ];
    let out = latest_per_resident(&rows);
    let ids: Vec<i32> = out.iter().map(|r| r.id).collect();
    assert_eq!(ids, vec![1, 2, 4]);
    assert!(latest_per_resident(&Vec::new()).is_empty());
}

#[test]
fn names_resident_looks_at_every_row() {
    let rows = vec![row(1, "A", 9, 10, 8), row(2, "B", 9, 10, 9)];
    assert!(names_resident(&rows, &"A".to_string()));
    assert!(names_resident(&rows, &"B".to_string()));
    assert!(!names_resident(&rows, &"C".to_string()));
    assert!(!names_resident(&Vec::new(), &"A".to_string()));
}

#[test]
fn criteria_match_row_by_row() {
    let c = Criteria { rfid: Some("A".to_string()), location: Some(9), range: november() };
    assert!(c.matches(&row(1, "A", 9, 10, 8)));
    assert!(!c.matches(&row(1, "B", 9, 10, 8)));
    assert!(!c.matches(&row(1, "A", 8, 10, 8)));
    assert!(!c.matches(&Model::new(1, "A".to_string(), 9, DateTime::new(2023, 12, 1, 0, 0, 0))));
}
