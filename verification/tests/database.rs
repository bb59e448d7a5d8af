use drone_logbook::database::{Database, DatabaseError, StoredPoint};
use drone_logbook::import::{
    default_tag_types, file_not_found, import_failure, read_import_config, ImportConfig,
};
use drone_logbook::models::{FlightMetadata, FlightTag, TelemetryPoint};
use drone_logbook::parser::{ParseResult, ParserError, Survey};

fn flight(id: i64, hash: Option<&str>) -> FlightMetadata {
    FlightMetadata {
        id,
        file_name: format!("{}.txt", id),
        display_name: format!("flight {}", id),
        file_hash: hash.map(|s| s.to_string()),
        drone_model: None,
        drone_serial: Some("SN1".to_string()),
        aircraft_name: None,
        battery_serial: Some(format!("BAT{}", id)),
        start_time: Some(1_700_000_000_000_000 + id),
        end_time: None,
        duration_ms: None,
        total_distance: None,
        max_altitude: None,
        max_speed: None,
        home_lat: None,
        home_lon: None,
        point_count: 0,
        photo_count: 0,
        video_count: 0,
    }
}

fn points(times: &[i64]) -> Vec<TelemetryPoint> {
    times.iter().map(|t| TelemetryPoint::new(*t)).collect()
}

fn strings(list: &[&str]) -> Vec<String> {
    list.iter().map(|s| s.to_string()).collect()
}

fn tag(tag: &str, tag_type: &str) -> FlightTag {
    FlightTag { tag: tag.to_string(), tag_type: tag_type.to_string() }
}

#[test]
fn test_database_initialization() {
    let db = Database::new();
    let flights = db.get_all_flights();
    assert!(flights.is_empty());
    assert!(db.check_well_formed());
}

#[test]
fn the_store_refuses_a_second_flight_with_an_id_or_a_hash() {
    let mut db = Database::new();
    assert_eq!(db.insert_flight(flight(1, Some("aa"))), Ok(1));
    assert!(matches!(db.insert_flight(flight(1, Some("bb"))), Err(DatabaseError::Store(_))));
    assert!(matches!(db.insert_flight(flight(2, Some("aa"))), Err(DatabaseError::Store(_))));
    assert_eq!(db.insert_flight(flight(2, None)), Ok(2));
    assert_eq!(db.insert_flight(flight(3, None)), Ok(3));
    assert_eq!(db.get_all_flight_ids(), vec![1, 2, 3]);
    assert_eq!(db.find_flight(2), Some(1));
    assert_eq!(db.find_flight(4), None);
}

#[test]
fn a_bulk_load_passes_over_times_that_the_flight_has() {
    let mut db = Database::new();
    let mut first = TelemetryPoint::new(100);
    first.height = Some(1);
    let mut again = TelemetryPoint::new(100);
    again.height = Some(2);
    assert_eq!(db.bulk_insert_telemetry(1, vec![TelemetryPoint::new(0), first, again, TelemetryPoint::new(200)]), 3);
    let mut late = TelemetryPoint::new(200);
    late.height = Some(3);
    assert_eq!(db.bulk_insert_telemetry(1, vec![late, TelemetryPoint::new(300)]), 1);
    // Another flight has its own times.
    assert_eq!(db.bulk_insert_telemetry(2, points(&[0, 100])), 2);
    let of_one: Vec<&StoredPoint> = db.telemetry.iter().filter(|r| r.flight_id == 1).collect();
    let times: Vec<i64> = of_one.iter().map(|r| r.point.timestamp_ms).collect();
    assert_eq!(times, vec![0, 100, 200, 300]);
    // The point that was there first is not written over.
    assert_eq!(of_one[1].point.height, Some(1));
    assert_eq!(of_one[2].point.height, None);
    assert!(db.check_well_formed());
    assert_eq!(db.bulk_insert_telemetry(1, Vec::new()), 0);
}

#[test]
fn a_deletion_takes_along_what_belongs_to_the_flight() {
    let mut db = Database::new();
    for id in [1, 2] {
        assert!(db.insert_flight(flight(id, None)).is_ok());
        db.bulk_insert_telemetry(id, points(&[0, 1, 2]));
        db.insert_flight_tags(id, &strings(&["High Speed"]));
        db.add_flight_tag(id, "mine");
        db.update_flight_notes(id, Some("windy"));
    }
    db.set_setting("k", "v");
    db.delete_flight(1);
    assert_eq!(db.get_all_flight_ids(), vec![2]);
    assert!(db.telemetry.iter().all(|r| r.flight_id == 2));
    assert_eq!(db.telemetry.len(), 3);
    assert_eq!(db.tags_as_stored(1), Vec::<FlightTag>::new());
    assert_eq!(db.tags_as_stored(2), vec![tag("High Speed", "auto"), tag("mine", "manual")]);
    assert_eq!(db.notes.len(), 1);
    assert_eq!(db.notes[0].flight_id, 2);
    db.delete_flight(99);
    assert_eq!(db.get_all_flight_ids(), vec![2]);
    db.delete_all_flights();
    assert!(db.flights.is_empty() && db.telemetry.is_empty() && db.tags.is_empty() && db.notes.is_empty());
    assert_eq!(db.get_setting("k"), Some("v".to_string()));
}

#[test]
fn automatic_tags_are_replaced_as_a_set_and_manual_tags_stay() {
    let mut db = Database::new();
    db.insert_flight_tags(1, &strings(&["High Speed", " Long Flight ", "", "  ", "High Speed"]));
    db.add_flight_tag(1, "  favourite ");
    db.add_flight_tag(1, "Long Flight");
    db.add_flight_tag(1, "   ");
    db.insert_flight_tags(2, &strings(&["High Speed"]));
    assert_eq!(
        db.tags_as_stored(1),
        vec![tag("High Speed", "auto"), tag("Long Flight", "auto"), tag("favourite", "manual")]
    );
    db.replace_auto_tags(1, &strings(&["Night Flight", "favourite", "Low Battery"]));
    assert_eq!(
        db.tags_as_stored(1),
        vec![tag("favourite", "manual"), tag("Night Flight", "auto"), tag("Low Battery", "auto")]
    );
    assert_eq!(db.tags_as_stored(2), vec![tag("High Speed", "auto")]);
    db.remove_flight_tag(1, " Night Flight ");
    db.remove_flight_tag(1, "favourite");
    db.remove_flight_tag(1, "never given");
    assert_eq!(db.tags_as_stored(1), vec![tag("Low Battery", "auto")]);
    db.add_flight_tag(2, "kept");
    assert_eq!(db.remove_all_auto_tags(), 2);
    assert_eq!(db.tags_as_stored(1), Vec::<FlightTag>::new());
    assert_eq!(db.tags_as_stored(2), vec![tag("kept", "manual")]);
    db.replace_auto_tags(2, &Vec::new());
    assert_eq!(db.tags_as_stored(2), vec![tag("kept", "manual")]);
}

#[test]
fn a_setting_has_one_value() {
    let mut db = Database::new();
    assert_eq!(db.get_setting("a"), None);
    db.set_setting("a", "1");
    db.set_setting("b", "2");
    db.set_setting("a", "3");
    assert_eq!(db.get_setting("a"), Some("3".to_string()));
    assert_eq!(db.get_setting("b"), Some("2".to_string()));
    assert_eq!(db.get_setting("A"), None);
    assert_eq!(db.settings.len(), 2);
}

#[test]
fn names_and_notes() {
    let mut db = Database::new();
    assert!(db.insert_flight(flight(1, None)).is_ok());
    assert!(db.insert_flight(flight(2, None)).is_ok());
    assert_eq!(db.update_flight_name(2, "  Sunset  "), Ok(true));
    assert_eq!(db.flights[1].display_name, "Sunset");
    assert_eq!(db.flights[0].display_name, "flight 1");
    assert_eq!(db.flights[1].id, 2);
    assert_eq!(db.update_flight_name(3, "x"), Ok(false));
    assert!(matches!(db.update_flight_name(2, "   "), Err(DatabaseError::Store(_))));
    assert_eq!(db.flights[1].display_name, "Sunset");
    db.update_flight_notes(1, Some(" gusty "));
    db.update_flight_notes(1, Some("calm"));
    assert_eq!(db.notes.len(), 1);
    assert_eq!(db.notes[0].notes, "calm");
    db.update_flight_notes(1, Some("  "));
    assert!(db.notes.is_empty());
    db.update_flight_notes(1, Some("x"));
    db.update_flight_notes(1, None);
    assert!(db.notes.is_empty());
}

#[test]
fn flights_are_found_by_hash_and_by_signature() {
    let mut db = Database::new();
    assert!(db.insert_flight(flight(1, Some("aa"))).is_ok());
    let mut bare = flight(2, Some("bb"));
    bare.battery_serial = None;
    bare.start_time = Some(5);
    assert!(db.insert_flight(bare).is_ok());
    assert_eq!(db.get_all_file_hashes(), strings(&["aa", "bb"]));
    assert_eq!(db.is_file_imported("aa"), Some("flight 1".to_string()));
    assert_eq!(db.is_file_imported("cc"), None);
    assert_eq!(db.is_file_imported(""), None);
    let t = 1_700_000_000_000_001;
    assert_eq!(db.is_duplicate_flight(Some("SN1"), Some("BAT1"), Some(t)), Some("flight 1".to_string()));
    assert_eq!(db.is_duplicate_flight(Some("SN1"), Some("BAT1"), Some(t + 1)), None);
    assert_eq!(db.is_duplicate_flight(Some("SN1"), Some("BAT2"), Some(t)), None);
    assert_eq!(db.is_duplicate_flight(Some("SN2"), Some("BAT1"), Some(t)), None);
    assert_eq!(db.is_duplicate_flight(None, Some("BAT1"), Some(t)), None);
    assert_eq!(db.is_duplicate_flight(Some(""), Some("BAT1"), Some(t)), None);
    assert_eq!(db.is_duplicate_flight(Some("SN1"), Some("BAT1"), None), None);
    // Without the battery only a flight that states none matches.
    assert_eq!(db.is_duplicate_flight(Some("SN1"), None, Some(t)), None);
    assert_eq!(db.is_duplicate_flight(Some("SN1"), None, Some(5)), Some("flight 2".to_string()));
    assert_eq!(db.is_duplicate_flight(Some("SN1"), Some(""), Some(5)), Some("flight 2".to_string()));
    assert_eq!(db.is_duplicate_flight(Some("SN1"), Some("BAT2"), Some(5)), None);
}

fn parsed(id: i64, hash: &str, times: &[i64]) -> ParseResult {
    ParseResult {
        metadata: flight(id, Some(hash)),
        points: points(times),
        tags: strings(&["High Speed", "Germany", "Europe"]),
        manual_tags: strings(&["mine", "High Speed"]),
        notes: Some(" first flight ".to_string()),
    }
}

fn all_on() -> ImportConfig {
    ImportConfig { smart_tags_enabled: true, enabled_tag_types: None }
}

#[test]
fn an_import_stores_the_flight_its_telemetry_and_its_tags() {
    let mut db = Database::new();
    let report = db.import_flight(parsed(1, "aa", &[0, 100, 100, 200]), &all_on()).unwrap();
    assert!(report.success);
    assert_eq!(report.flight_id, Some(1));
    assert_eq!(report.point_count, 3);
    assert_eq!(report.message, "Successfully imported 3 telemetry points");
    assert_eq!(report.file_hash, Some("aa".to_string()));
    assert_eq!(db.get_all_flight_ids(), vec![1]);
    assert_eq!(db.telemetry.len(), 3);
    assert_eq!(
        db.tags_as_stored(1),
        vec![tag("High Speed", "auto"), tag("Germany", "auto"), tag("Europe", "auto"), tag("mine", "manual")]
    );
    assert_eq!(db.notes[0].notes, "first flight");
    assert!(db.check_well_formed());
}

#[test]
fn an_import_minds_the_settings_for_smart_tags() {
    let mut db = Database::new();
    let off = ImportConfig { smart_tags_enabled: false, enabled_tag_types: Some(strings(&["high_speed"])) };
    db.import_flight(parsed(1, "aa", &[0]), &off).unwrap();
    assert_eq!(db.tags_as_stored(1), vec![tag("mine", "manual"), tag("High Speed", "manual")]);
    let some = ImportConfig { smart_tags_enabled: true, enabled_tag_types: Some(strings(&["continent", "low_battery"])) };
    db.import_flight(parsed(2, "bb", &[0]), &some).unwrap();
    assert_eq!(
        db.tags_as_stored(2),
        vec![tag("Europe", "auto"), tag("mine", "manual"), tag("High Speed", "manual")]
    );
}

#[test]
fn a_second_file_of_a_flight_goes_in_and_deduplication_takes_the_smaller() {
    let mut db = Database::new();
    let first = db.import_flight(parsed(1, "aa", &[0, 1]), &all_on()).unwrap();
    assert!(first.success);
    let mut again = parsed(2, "bb", &[0, 1, 2]);
    again.metadata.battery_serial = Some("BAT1".to_string());
    again.metadata.start_time = Some(1_700_000_000_000_001);
    again.metadata.point_count = 3;
    assert_eq!(
        db.is_duplicate_flight(Some("SN1"), Some("BAT1"), Some(1_700_000_000_000_001)),
        Some("flight 1".to_string())
    );
    let report = db.import_flight(again, &all_on()).unwrap();
    assert!(report.success);
    assert_eq!(report.flight_id, Some(2));
    assert_eq!(report.point_count, 3);
    assert_eq!(report.file_hash, Some("bb".to_string()));
    assert_eq!(report.message, "Successfully imported 3 telemetry points");
    assert_eq!(db.get_all_flight_ids(), vec![1, 2]);
    assert_eq!(db.telemetry.len(), 5);
    assert_eq!(db.deduplicate_flights(), 1);
    assert_eq!(db.get_all_flight_ids(), vec![2]);
    assert!(db.telemetry.iter().all(|row| row.flight_id == 2));
    assert_eq!(db.telemetry.len(), 3);
    assert!(db.tags.iter().all(|row| row.flight_id == 2));
    assert_eq!(db.deduplicate_flights(), 0);
}

#[test]
fn a_flight_that_the_store_refuses_leaves_nothing_behind() {
    let mut db = Database::new();
    db.import_flight(parsed(1, "aa", &[0, 1]), &all_on()).unwrap();
    let before = db.clone();
    // Another signature, but the id is taken.
    let mut same_id = parsed(1, "bb", &[5]);
    same_id.metadata.drone_serial = Some("SN8".to_string());
    assert!(db.import_flight(same_id, &all_on()).is_err());
    assert_eq!(db, before);
    // Another id and signature, but the hash is taken.
    let mut same_hash = parsed(2, "aa", &[5]);
    same_hash.metadata.drone_serial = Some("SN9".to_string());
    assert!(db.import_flight(same_hash, &all_on()).is_err());
    assert_eq!(db, before);
}

#[test]
fn what_is_reported_of_files_that_gave_no_flight() {
    let r = import_failure(&ParserError::AlreadyImported("Sunset".to_string()));
    assert!(!r.success);
    assert_eq!(r.message, "This flight log has already been imported (matches: Sunset)");
    let r = import_failure(&ParserError::NoTelemetryData);
    assert_eq!(r.message, "Failed to parse log: No valid telemetry data found");
    assert_eq!((r.flight_id, r.point_count, r.file_hash), (None, 0, None));
    let r = import_failure(&ParserError::Timeout(40));
    assert_eq!(r.message, "Failed to parse log: Parsing timed out after 40 seconds — file may be corrupt or unsupported");
    assert_eq!(file_not_found().message, "File not found");
    assert!(!file_not_found().success);
}

#[test]
fn what_the_settings_file_says_about_smart_tags() {
    let c = read_import_config(None);
    assert_eq!(c, all_on());
    assert_eq!(read_import_config(Some("not json")), all_on());
    assert_eq!(read_import_config(Some("[1, 2]")), all_on());
    assert_eq!(read_import_config(Some("{}")), all_on());
    let c = read_import_config(Some(r#"{"smart_tags_enabled": false, "other": 1}"#));
    assert_eq!(c, ImportConfig { smart_tags_enabled: false, enabled_tag_types: None });
    let c = read_import_config(Some(r#"{"smart_tags_enabled": "no", "enabled_tag_types": ["high_speed", 7, "country", null]}"#));
    assert_eq!(c, ImportConfig { smart_tags_enabled: true, enabled_tag_types: Some(strings(&["high_speed", "country"])) });
    let c = read_import_config(Some(r#"{"enabled_tag_types": []}"#));
    assert_eq!(c.enabled_tag_types, Some(Vec::new()));
    let c = read_import_config(Some(r#"{"enabled_tag_types": "high_speed"}"#));
    assert_eq!(c.enabled_tag_types, None);
    assert_eq!(default_tag_types().len(), 13);
    assert_eq!(default_tag_types()[0], "night_flight");
    assert_eq!(default_tag_types()[12], "continent");
}

#[test]
fn a_backup_restored_to_its_store_leaves_the_store_as_it_was() {
    let mut db = Database::new();
    db.import_flight(parsed(1, "aa", &[0, 1]), &all_on()).unwrap();
    db.import_flight(parsed(2, "bb", &[0, 1, 2]), &all_on()).unwrap();
    db.set_setting("duplicate_checked", "true");
    let backup = db.clone();
    let taken = db.clone();
    assert_eq!(db.import_backup(backup), 2);
    assert_eq!(db, taken);
    let mut empty = Database::new();
    assert_eq!(empty.import_backup(taken.clone()), 2);
    assert_eq!(empty.flights, taken.flights);
    assert_eq!(empty.telemetry, taken.telemetry);
    assert_eq!(empty.tags, taken.tags);
    assert_eq!(empty.notes, taken.notes);
    assert!(empty.settings.is_empty());
}

#[test]
fn a_restore_takes_the_place_of_what_collides_with_it() {
    let mut db = Database::new();
    db.import_flight(parsed(1, "aa", &[0, 1]), &all_on()).unwrap();
    db.import_flight(parsed(2, "bb", &[0]), &all_on()).unwrap();
    db.import_flight(parsed(3, "cc", &[0]), &all_on()).unwrap();
    let mut backup = Database::new();
    // Flight 1 again with other telemetry; flight 9 with the hash of flight 2.
    backup.import_flight(parsed(1, "zz", &[7, 8, 9]), &all_on()).unwrap();
    let mut nine = parsed(9, "bb", &[5]);
    nine.metadata.drone_serial = Some("SN9".to_string());
    nine.manual_tags = Vec::new();
    nine.tags = Vec::new();
    nine.notes = None;
    backup.import_flight(nine, &all_on()).unwrap();
    assert_eq!(db.import_backup(backup), 2);
    assert_eq!(db.get_all_flight_ids(), vec![3, 1, 9]);
    assert_eq!(db.flights[1].file_hash, Some("zz".to_string()));
    let times_of = |db: &Database, id: i64| -> Vec<i64> {
        db.telemetry.iter().filter(|r| r.flight_id == id).map(|r| r.point.timestamp_ms).collect()
    };
    assert_eq!(times_of(&db, 1), vec![7, 8, 9]);
    assert_eq!(times_of(&db, 9), vec![5]);
    assert_eq!(times_of(&db, 3), vec![0]);
    // The flight that gave way by its hash leaves its rows behind until the
    // next deduplication.
    assert_eq!(times_of(&db, 2), vec![0]);
    assert!(db.check_well_formed());
    db.deduplicate_flights();
    assert_eq!(times_of(&db, 2), Vec::<i64>::new());
}

#[test]
fn tags_are_derived_anew_from_the_stored_telemetry() {
    let mut db = Database::new();
    let mut fast = TelemetryPoint::new(0);
    fast.speed = Some(20_000);
    fast.latitude = Some(525_200_000);
    fast.longitude = Some(134_050_000);
    let mut far = TelemetryPoint::new(90_000);
    far.speed = Some(1_000);
    far.latitude = Some(525_300_000);
    far.longitude = Some(134_050_000);
    let mut flight_one = parsed(1, "aa", &[]);
    flight_one.points = vec![fast, far];
    flight_one.tags = strings(&["Old Tag"]);
    flight_one.metadata.start_time = Some(12 * 3_600_000_000);
    db.import_flight(flight_one, &all_on()).unwrap();
    let survey = Survey { legs: vec![1_112_000], from_home: vec![0, 1_112_000], country_code: "DE".to_string() };
    assert_eq!(db.regenerate_flight_smart_tags(1, &survey, None), Ok(()));
    assert_eq!(
        db.tags_as_stored(1),
        vec![
            tag("mine", "manual"),
            tag("High Speed", "manual"),
            tag("Long Distance", "auto"),
            tag("Short Flight", "auto"),
            tag("Aggressive Flying", "auto"),
            tag("Germany", "auto"),
            tag("Europe", "auto"),
        ]
    );
    let only = strings(&["short_flight", "country"]);
    assert_eq!(db.regenerate_flight_smart_tags(1, &survey, Some(&only)), Ok(()));
    assert_eq!(
        db.tags_as_stored(1),
        vec![
            tag("mine", "manual"),
            tag("High Speed", "manual"),
            tag("Short Flight", "auto"),
            tag("Germany", "auto"),
        ]
    );
    assert_eq!(db.regenerate_flight_smart_tags(5, &survey, None), Err(DatabaseError::FlightNotFound(5)));
    // A flight without telemetry is left without automatic tags.
    db.import_flight(parsed(2, "bb", &[]), &all_on()).unwrap();
    assert_eq!(db.regenerate_flight_smart_tags(2, &survey, None), Ok(()));
    // The flight had `High Speed` as an automatic tag, so it was not given
    // again by hand; only the manual tag is left.
    assert_eq!(db.tags_as_stored(2), vec![tag("mine", "manual")]);
}

#[test]
fn an_id_is_the_clock_cut_to_twelve_digits() {
    assert_eq!(Database::generate_flight_id(0), 0);
    assert_eq!(Database::generate_flight_id(1_700_000_000_123), 700_000_000_123);
    assert_eq!(Database::generate_flight_id(999_999_999_999), 999_999_999_999);
    assert_eq!(Database::generate_flight_id(u64::MAX), 73_709_551_615);
}
