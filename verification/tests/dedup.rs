use drone_logbook::database::Database;
use drone_logbook::dedup::{hash_survivors, remove_duplicates, signature_survivors};
use drone_logbook::models::{FlightMetadata, TelemetryPoint};

fn flight(id: i64, hash: Option<&str>, drone: Option<&str>, battery: Option<&str>, start: Option<i64>, points: i32) -> FlightMetadata {
    FlightMetadata {
        id,
        file_name: format!("{}.txt", id),
        display_name: format!("flight {}", id),
        file_hash: hash.map(|s| s.to_string()),
        drone_model: None,
        drone_serial: drone.map(|s| s.to_string()),
        aircraft_name: None,
        battery_serial: battery.map(|s| s.to_string()),
        start_time: start,
        end_time: None,
        duration_ms: None,
        total_distance: None,
        max_altitude: None,
        max_speed: None,
        home_lat: None,
        home_lon: None,
        point_count: points,
        photo_count: 0,
        video_count: 0,
    }
}

fn ids(flights: &Vec<FlightMetadata>) -> Vec<i64> {
    flights.iter().map(|f| f.id).collect()
}

#[test]
fn of_flights_with_one_hash_the_one_with_the_most_points_stays() {
    let mut flights = vec![
        flight(1, Some("aa"), None, None, None, 10),
        flight(2, Some("aa"), None, None, None, 30),
        flight(3, Some("aa"), None, None, None, 20),
        flight(4, Some("bb"), None, None, None, 5),
    ];
    assert_eq!(hash_survivors(&flights), vec![false, true, false, true]);
    assert_eq!(remove_duplicates(&mut flights), 2);
    assert_eq!(ids(&flights), vec![2, 4]);
}

#[test]
fn of_flights_with_as_many_points_the_one_with_the_lowest_id_stays() {
    let mut flights = vec![
        flight(9, Some("aa"), None, None, None, 10),
        flight(3, Some("aa"), None, None, None, 10),
        flight(5, Some("aa"), None, None, None, 10),
    ];
    assert_eq!(remove_duplicates(&mut flights), 2);
    assert_eq!(ids(&flights), vec![3]);
}

#[test]
fn flights_without_a_hash_are_no_duplicates_by_hash() {
    let mut flights = vec![
        flight(1, None, None, None, None, 10),
        flight(2, None, None, None, None, 10),
        flight(3, Some(""), None, None, None, 10),
        flight(4, Some(""), None, None, None, 10),
    ];
    assert_eq!(remove_duplicates(&mut flights), 0);
    assert_eq!(ids(&flights), vec![1, 2, 3, 4]);
}

#[test]
fn the_signature_is_the_aircraft_the_battery_and_the_start() {
    let flights = vec![
        flight(1, Some("a"), Some("D1"), Some("B1"), Some(1_000), 10),
        flight(2, Some("b"), Some("D1"), Some("B1"), Some(1_000), 20),
        flight(3, Some("c"), Some("D1"), Some("B1"), Some(1_001), 30),
        flight(4, Some("d"), Some("D1"), Some("B2"), Some(1_000), 30),
        flight(5, Some("e"), Some("D2"), Some("B1"), Some(1_000), 30),
        flight(6, Some("f"), Some("D1"), None, Some(1_000), 30),
        flight(7, Some("g"), Some("D1"), Some("B1"), None, 30),
        flight(8, Some("h"), Some(""), Some(""), Some(1_000), 30),
        flight(9, Some("i"), Some(""), Some(""), Some(1_000), 40),
    ];
    assert_eq!(
        signature_survivors(&flights),
        vec![false, true, true, true, true, true, true, true, true]
    );
}

#[test]
fn the_flight_with_fewer_points_goes_whichever_was_stored_first() {
    let few = flight(1, Some("a"), Some("D1"), Some("B1"), Some(1_000), 100);
    let many = flight(2, Some("b"), Some("D1"), Some("B1"), Some(1_000), 900);
    let mut one = vec![few.clone(), many.clone()];
    let mut other = vec![many.clone(), few.clone()];
    assert_eq!(remove_duplicates(&mut one), 1);
    assert_eq!(remove_duplicates(&mut other), 1);
    assert_eq!(ids(&one), vec![2]);
    assert_eq!(ids(&other), vec![2]);
    // The same with the ids the other way round.
    let few = flight(2, Some("a"), Some("D1"), Some("B1"), Some(1_000), 100);
    let many = flight(1, Some("b"), Some("D1"), Some("B1"), Some(1_000), 900);
    let mut one = vec![few.clone(), many.clone()];
    let mut other = vec![many, few];
    remove_duplicates(&mut one);
    remove_duplicates(&mut other);
    assert_eq!(ids(&one), vec![1]);
    assert_eq!(ids(&other), vec![1]);
}

#[test]
fn a_second_run_takes_nothing() {
    let mut flights = vec![
        flight(1, Some("a"), Some("D1"), Some("B1"), Some(1_000), 10),
        flight(2, Some("a"), Some("D9"), Some("B9"), Some(9_000), 50),
        flight(3, Some("c"), Some("D1"), Some("B1"), Some(1_000), 30),
        flight(4, Some("d"), Some("D1"), Some("B1"), Some(1_000), 30),
        flight(5, None, Some("D2"), Some("B2"), Some(2_000), 1),
        flight(6, Some("f"), Some("D2"), Some("B2"), Some(2_000), 1),
    ];
    let removed = remove_duplicates(&mut flights);
    assert_eq!(removed, 3);
    assert_eq!(ids(&flights), vec![2, 3, 5]);
    let once = flights.clone();
    assert_eq!(remove_duplicates(&mut flights), 0);
    assert_eq!(flights, once);
}

#[test]
fn where_the_better_flight_goes_by_hash_the_other_one_stays() {
    // Flight 2 has more points than flight 1 and the same signature, but it
    // is a duplicate by hash of flight 3, which has another signature.
    let mut flights = vec![
        flight(1, Some("a"), Some("D1"), Some("B1"), Some(1_000), 10),
        flight(2, Some("x"), Some("D1"), Some("B1"), Some(1_000), 20),
        flight(3, Some("x"), Some("D7"), Some("B7"), Some(7_000), 30),
    ];
    remove_duplicates(&mut flights);
    assert_eq!(ids(&flights), vec![1, 3]);
}

fn points(times: &[i64]) -> Vec<TelemetryPoint> {
    times.iter().map(|t| TelemetryPoint::new(*t)).collect()
}

#[test]
fn two_imports_of_one_flight_from_different_files() {
    let mut db = Database::new();
    let first = flight(10, Some("hash-of-export-a"), Some("SN1"), Some("BAT1"), Some(1_700_000_000_000_000), 3);
    let second = flight(11, Some("hash-of-export-b"), Some("SN1"), Some("BAT1"), Some(1_700_000_000_000_000), 5);
    assert_eq!(db.insert_flight(first).ok(), Some(10));
    assert_eq!(db.bulk_insert_telemetry(10, points(&[0, 100, 200])), 3);
    assert_eq!(db.insert_flight(second).ok(), Some(11));
    assert_eq!(db.bulk_insert_telemetry(11, points(&[0, 50, 100, 150, 200])), 5);
    db.insert_flight_tags(10, &vec!["Long Flight".to_string()]);
    db.add_flight_tag(11, "mine");
    db.update_flight_notes(10, Some("first try"));
    assert_eq!(db.deduplicate_flights(), 1);
    assert_eq!(db.get_all_flight_ids(), vec![11]);
    // The telemetry, the tags and the notes of the flight that went are gone.
    assert!(db.telemetry.iter().all(|row| row.flight_id == 11));
    assert_eq!(db.telemetry.len(), 5);
    assert!(db.tags.iter().all(|row| row.flight_id == 11));
    assert_eq!(db.tags.len(), 1);
    assert!(db.notes.is_empty());
    assert!(db.check_well_formed());
    let once = db.clone();
    assert_eq!(db.deduplicate_flights(), 0);
    assert_eq!(db, once);
}

#[test]
fn rows_that_belong_to_no_flight_go_with_a_deduplication() {
    let mut db = Database::new();
    assert!(db.insert_flight(flight(1, Some("a"), None, None, None, 1)).is_ok());
    db.bulk_insert_telemetry(1, points(&[0]));
    db.bulk_insert_telemetry(77, points(&[0, 1]));
    db.add_flight_tag(77, "lost");
    assert_eq!(db.deduplicate_flights(), 0);
    assert_eq!(db.telemetry.len(), 1);
    assert!(db.tags.is_empty());
}

#[test]
fn the_store_is_deduplicated_once_at_startup() {
    let mut db = Database::new();
    db.flights.push(flight(1, Some("a"), None, None, None, 1));
    db.flights.push(flight(2, Some("a"), None, None, None, 2));
    assert_eq!(db.get_setting("duplicate_checked"), None);
    assert_eq!(db.run_startup_deduplication(), Some(1));
    assert_eq!(db.get_setting("duplicate_checked"), Some("true".to_string()));
    assert_eq!(db.get_all_flight_ids(), vec![2]);
    db.flights.push(flight(3, Some("a"), None, None, None, 3));
    assert_eq!(db.run_startup_deduplication(), None);
    assert_eq!(db.get_all_flight_ids(), vec![2, 3]);
    db.set_setting("duplicate_checked", "false");
    assert_eq!(db.run_startup_deduplication(), Some(1));
    assert_eq!(db.get_all_flight_ids(), vec![3]);
}
