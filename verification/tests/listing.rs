use drone_logbook::database::{Database, DatabaseError, StoredMessage, StoredNote};
use drone_logbook::models::{Flight, FlightMessage, FlightMetadata, FlightTag};

const START: i64 = 1_700_000_000_000_000;

fn stored(id: i64, start_time: Option<i64>) -> FlightMetadata {
    FlightMetadata {
        id,
        file_name: format!("{}.txt", id),
        display_name: format!("flight {}", id),
        file_hash: Some(format!("hash{}", id)),
        drone_model: Some("Mavic".to_string()),
        drone_serial: None,
        aircraft_name: None,
        battery_serial: Some("B1".to_string()),
        start_time,
        end_time: start_time,
        duration_ms: Some(60_000),
        total_distance: Some(1_500),
        max_altitude: None,
        max_speed: Some(12_000),
        home_lat: Some(480_000_000),
        home_lon: Some(110_000_000),
        point_count: 7,
        photo_count: 2,
        video_count: 1,
    }
}

fn marked(tag: &str, tag_type: &str) -> FlightTag {
    FlightTag { tag: tag.to_string(), tag_type: tag_type.to_string() }
}

fn said(timestamp_ms: i64, message_type: &str, message: &str) -> FlightMessage {
    FlightMessage {
        timestamp_ms,
        message_type: message_type.to_string(),
        message: message.to_string(),
    }
}

fn logbook() -> Database {
    let mut db = Database::new();
    db.flights = vec![
        stored(1, Some(START)),
        stored(2, None),
        stored(3, Some(START + 1)),
        stored(4, Some(START)),
        stored(5, Some(START - 1)),
    ];
    db.insert_flight_tags(1, &vec!["Night Flight".to_string(), "High Speed".to_string()]);
    db.add_flight_tag(1, "alps");
    db.add_flight_tag(1, "Zermatt");
    db.add_flight_tag(3, "alps");
    db.notes.push(StoredNote { flight_id: 3, notes: "windy".to_string() });
    db
}

#[test]
fn a_flight_is_listed_with_its_tags_and_notes() {
    let db = logbook();
    let expected = Flight {
        id: 1,
        file_name: "1.txt".to_string(),
        display_name: "flight 1".to_string(),
        file_hash: Some("hash1".to_string()),
        drone_model: Some("Mavic".to_string()),
        drone_serial: None,
        aircraft_name: None,
        battery_serial: Some("B1".to_string()),
        start_time: Some("2023-11-14T22:13:20+00:00".to_string()),
        duration_ms: Some(60_000),
        total_distance: Some(1_500),
        max_altitude: None,
        max_speed: Some(12_000),
        home_lat: Some(480_000_000),
        home_lon: Some(110_000_000),
        point_count: Some(7),
        photo_count: Some(2),
        video_count: Some(1),
        tags: vec![
            marked("High Speed", "auto"),
            marked("Night Flight", "auto"),
            marked("Zermatt", "manual"),
            marked("alps", "manual"),
        ],
        notes: None,
    };
    assert_eq!(db.get_flight_by_id(1), Ok(expected.clone()));
    assert_eq!(db.flight_at(0), expected);
    let third = db.get_flight_by_id(3).unwrap();
    assert_eq!(third.notes, Some("windy".to_string()));
    assert_eq!(third.start_time, Some("2023-11-14T22:13:20.000001+00:00".to_string()));
    assert_eq!(db.get_flight_by_id(2).unwrap().start_time, None);
    assert_eq!(db.get_flight_by_id(9), Err(DatabaseError::FlightNotFound(9)));
}

#[test]
fn the_list_has_the_latest_flight_first() {
    let db = logbook();
    let ids: Vec<i64> = db.get_all_flights().iter().map(|f| f.id).collect();
    assert_eq!(ids, vec![3, 1, 4, 5, 2]);
    assert_eq!(db.get_all_flights()[0], db.get_flight_by_id(3).unwrap());
    assert!(Database::new().get_all_flights().is_empty());
}

#[test]
fn the_tags_of_a_flight_come_in_the_order_of_texts() {
    let db = logbook();
    assert_eq!(
        db.tags_as_stored(1),
        vec![
            marked("Night Flight", "auto"),
            marked("High Speed", "auto"),
            marked("alps", "manual"),
            marked("Zermatt", "manual"),
        ]
    );
    assert_eq!(
        db.get_flight_tags(1),
        vec![
            marked("High Speed", "auto"),
            marked("Night Flight", "auto"),
            marked("Zermatt", "manual"),
            marked("alps", "manual"),
        ]
    );
    assert_eq!(db.get_flight_tags(2), Vec::new());
    assert_eq!(db.get_all_unique_tags(), vec!["High Speed", "Night Flight", "Zermatt", "alps"]);
    assert_eq!(Database::new().get_all_unique_tags(), Vec::<String>::new());
}

#[test]
fn the_notes_of_a_flight() {
    let db = logbook();
    assert_eq!(db.get_flight_notes(3), Some("windy".to_string()));
    assert_eq!(db.get_flight_notes(1), None);
}

#[test]
fn a_message_is_stored_once_for_its_time_and_type() {
    let mut db = logbook();
    db.insert_flight_messages(
        1,
        vec![
            said(500, "tip", "take off"),
            said(100, "warn", "strong wind"),
            said(500, "warn", "low battery"),
            said(500, "tip", "again"),
        ],
    );
    db.insert_flight_messages(3, vec![said(100, "warn", "other flight")]);
    db.insert_flight_messages(1, vec![said(100, "warn", "ignored"), said(50, "tip", "compass")]);
    assert_eq!(
        db.get_flight_messages(1),
        vec![
            said(50, "tip", "compass"),
            said(100, "warn", "strong wind"),
            said(500, "tip", "take off"),
            said(500, "warn", "low battery"),
        ]
    );
    assert_eq!(db.get_flight_messages(3), vec![said(100, "warn", "other flight")]);
    assert_eq!(db.get_flight_messages(2), Vec::new());
    assert_eq!(db.messages.len(), 5);
    db.delete_flight_messages(1);
    assert_eq!(db.get_flight_messages(1), Vec::new());
    assert_eq!(db.get_flight_messages(3), vec![said(100, "warn", "other flight")]);
}

#[test]
fn messages_go_with_their_flight() {
    let mut db = logbook();
    db.insert_flight_messages(1, vec![said(1, "tip", "a")]);
    db.insert_flight_messages(3, vec![said(2, "tip", "b")]);
    db.insert_flight_messages(77, vec![said(3, "tip", "no such flight")]);
    db.delete_flight(1);
    assert_eq!(db.messages.iter().map(|m| m.flight_id).collect::<Vec<i64>>(), vec![3, 77]);
    db.deduplicate_flights();
    assert_eq!(db.messages.iter().map(|m| m.flight_id).collect::<Vec<i64>>(), vec![3]);
    db.delete_all_flights();
    assert!(db.messages.is_empty());
}

#[test]
fn a_restore_brings_the_messages_of_the_backup() {
    let mut db = logbook();
    db.insert_flight_messages(1, vec![said(1, "tip", "old"), said(2, "tip", "old too")]);
    db.insert_flight_messages(3, vec![said(5, "warn", "stays")]);
    let mut backup = Database::new();
    backup.flights = vec![stored(1, Some(START))];
    backup.messages = vec![StoredMessage { flight_id: 1, message: said(9, "warn", "new") }];
    assert_eq!(db.import_backup(backup), 1);
    assert_eq!(db.get_flight_messages(1), vec![said(9, "warn", "new")]);
    assert_eq!(db.get_flight_messages(3), vec![said(5, "warn", "stays")]);
}

fn pairs(list: &[(&str, &str)]) -> Vec<(String, String)> {
    list.iter().map(|(a, b)| (a.to_string(), b.to_string())).collect()
}

#[test]
fn equipment_has_one_name() {
    let mut db = Database::new();
    db.set_equipment_name(" sn2 ", "battery", "  Spare ");
    db.set_equipment_name("SN1", "battery", "Main");
    db.set_equipment_name("sn1", "aircraft", "Bird");
    db.set_equipment_name("Sn2", "battery", "Second");
    assert_eq!(db.get_equipment_names("battery"), pairs(&[("SN1", "Main"), ("SN2", "Second")]));
    assert_eq!(db.get_equipment_names("aircraft"), pairs(&[("SN1", "Bird")]));
    assert_eq!(db.get_equipment_names("gimbal"), pairs(&[]));
    assert_eq!(
        db.get_all_equipment_names(),
        (pairs(&[("SN1", "Main"), ("SN2", "Second")]), pairs(&[("SN1", "Bird")]))
    );
    db.set_equipment_name("sn1", "battery", "   ");
    db.set_equipment_name("sn9", "battery", "");
    assert_eq!(db.get_equipment_names("battery"), pairs(&[("SN2", "Second")]));
    assert_eq!(db.get_equipment_names("aircraft"), pairs(&[("SN1", "Bird")]));
    assert_eq!(db.equipment.len(), 2);
}

#[test]
fn a_restore_brings_the_names_of_the_backup() {
    let mut db = Database::new();
    db.set_equipment_name("a", "battery", "old a");
    db.set_equipment_name("b", "battery", "old b");
    db.set_equipment_name("a", "aircraft", "plane");
    let mut backup = Database::new();
    backup.set_equipment_name("a", "battery", "new a");
    backup.set_equipment_name("c", "battery", "new c");
    db.import_backup(backup);
    assert_eq!(
        db.get_equipment_names("battery"),
        pairs(&[("A", "new a"), ("B", "old b"), ("C", "new c")])
    );
    assert_eq!(db.get_equipment_names("aircraft"), pairs(&[("A", "plane")]));
}
