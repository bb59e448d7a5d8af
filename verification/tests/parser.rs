use drone_logbook::frames::{RawFrame, Reading};
use drone_logbook::manual::{create_manual_flight, write_signed, ManualFlight};
use drone_logbook::models::{Flight, FlightTag};
use drone_logbook::parser::{
    add_millis, compute_speed_over, count_points, display_name, keep_unless_blank, BinaryDetails,
    DecodeOutcome, LogFormat, LogParser, ParserError, Survey,
};
use drone_logbook::regenerate::metadata_of_flight;
use drone_logbook::sync::{name_to_keep, outcome_of_error, tally, SyncOutcome, SyncTally};

fn strings(list: &[&str]) -> Vec<String> {
    list.iter().map(|s| s.to_string()).collect()
}

fn frame(lat: i64, lon: i64, fly_time_ms: Option<i64>) -> RawFrame {
    RawFrame {
        fly_time_ms,
        latitude: Reading::Finite(lat),
        longitude: Reading::Finite(lon),
        altitude: Reading::Finite(40_000),
        height: Reading::Finite(130_000),
        x_speed: Reading::Finite(6_000),
        y_speed: Reading::Finite(8_000),
        z_speed: Reading::Finite(0),
        vps_height: None,
        pitch: None,
        roll: None,
        yaw: None,
        gps_num: 12,
        gps_level: 4,
        flight_mode: None,
        gimbal_pitch: None,
        gimbal_roll: None,
        gimbal_yaw: None,
        charge_level: 50,
        voltage: None,
        current: None,
        temperature: Some(10_000),
        uplink_signal: None,
        downlink_signal: None,
        aileron: 1024,
        elevator: 1024,
        throttle: 1024,
        rudder: 1024,
        is_photo: false,
        is_video: false,
    }
}

fn details() -> BinaryDetails {
    BinaryDetails {
        version: 14,
        product_type: "Mavic3".to_string(),
        aircraft_sn: " 1581f5bk  ".to_string(),
        aircraft_name: "Bee".to_string(),
        battery_sn: "4erk".to_string(),
        total_time_ms: 100_000,
        // 2024-03-10T12:00:00Z
        start_time: 1_710_072_000_000_000,
    }
}

#[test]
fn every_error_has_its_message() {
    let cases = [
        (ParserError::Io("disk gone".to_string()), "IO error: disk gone"),
        (ParserError::Parse("bad header".to_string()), "Parse error: bad header"),
        (ParserError::AlreadyImported("Sunset".to_string()), "File already imported (matches: Sunset)"),
        (ParserError::NoTelemetryData, "No valid telemetry data found"),
        (ParserError::EncryptionKeyRequired, "Encryption key required for V13+ logs"),
        (ParserError::Api("403".to_string()), "API error: 403"),
        (ParserError::Panic("index out of bounds".to_string()), "Parser crashed on this file (internal panic)"),
        (ParserError::Timeout(40), "Parsing timed out after 40 seconds — file may be corrupt or unsupported"),
        (
            ParserError::IncompatibleFile,
            "Incompatible file format — only DJI flight logs (.txt), Litchi CSV exports, and Drone Logbook CSV exports are supported",
        ),
    ];
    for (error, text) in cases {
        assert_eq!(error.message(), text);
    }
    assert_eq!(ParserError::Timeout(0).message(), "Parsing timed out after 0 seconds — file may be corrupt or unsupported");
}

#[test]
fn encrypted_logs_need_a_key() {
    assert!(!LogParser::needs_keychain(12));
    assert!(LogParser::needs_keychain(13));
    assert!(LogParser::needs_keychain(255));
    assert_eq!(LogParser::key_for(12, None), Ok(None));
    assert_eq!(LogParser::key_for(12, Some("k".to_string())), Ok(None));
    assert_eq!(LogParser::key_for(13, Some("k".to_string())), Ok(Some("k".to_string())));
    assert_eq!(LogParser::key_for(13, None), Err(ParserError::EncryptionKeyRequired));
    assert_eq!(LogParser::key_for(14, None), Err(ParserError::EncryptionKeyRequired));
}

#[test]
fn the_ways_in_which_a_decoding_ends() {
    assert_eq!(LogParser::check_decoded(DecodeOutcome::Done), Ok(()));
    assert_eq!(LogParser::check_decoded(DecodeOutcome::TimedOut), Err(ParserError::Timeout(40)));
    assert_eq!(
        LogParser::check_decoded(DecodeOutcome::JoinFailed("cancelled".to_string())),
        Err(ParserError::Panic("Task join error: cancelled".to_string()))
    );
    assert_eq!(
        LogParser::check_decoded(DecodeOutcome::Panicked(Some("overflow".to_string()))),
        Err(ParserError::Panic("overflow".to_string()))
    );
    assert_eq!(
        LogParser::check_decoded(DecodeOutcome::Panicked(None)),
        Err(ParserError::Panic("unknown panic".to_string()))
    );
    assert_eq!(
        LogParser::check_decoded(DecodeOutcome::Failed("bad magic".to_string())),
        Err(ParserError::Parse("bad magic".to_string()))
    );
    assert_eq!(
        LogParser::check_decoded(DecodeOutcome::KeyFetchFailed("401".to_string())),
        Err(ParserError::Api("401".to_string()))
    );
}

#[test]
fn a_binary_log_is_drafted_from_its_frames_and_its_header() {
    let frames = vec![
        frame(0, 0, Some(1_000)),
        frame(525_200_000, 134_050_000, Some(2_000)),
        frame(525_210_000, 134_050_000, Some(3_000)),
    ];
    let parser = LogParser::new();
    let draft = parser.parse_frames("DJIFlightRecord_1.txt", "DJIFlightRecord_1", "cafe", &details(), &frames).unwrap();
    assert_eq!(draft.format, LogFormat::BinaryLog);
    assert_eq!(draft.points.len(), 3);
    let m = &draft.metadata;
    assert_eq!(m.id, 0);
    assert_eq!(m.file_name, "DJIFlightRecord_1.txt");
    assert_eq!(m.display_name, "DJIFlightRecord_1");
    assert_eq!(m.file_hash, Some("cafe".to_string()));
    assert_eq!(m.drone_model, Some("Mavic3".to_string()));
    assert_eq!(m.drone_serial, Some("1581F5BK".to_string()));
    assert_eq!(m.aircraft_name, Some("Bee".to_string()));
    assert_eq!(m.battery_serial, Some("4ERK".to_string()));
    assert_eq!(m.start_time, Some(1_710_072_000_000_000));
    assert_eq!(m.end_time, Some(1_710_072_100_000_000));
    assert_eq!(m.duration_ms, Some(100_000));
    assert_eq!(m.total_distance, None);
    assert_eq!(m.max_altitude, Some(130_000));
    assert_eq!(m.max_speed, Some(10_000));
    assert_eq!(m.home_lat, Some(525_200_000));
    assert_eq!(m.home_lon, Some(134_050_000));
    assert_eq!(m.point_count, 3);
    assert_eq!((m.photo_count, m.video_count), (0, 0));
    assert_eq!(draft.stats.duration_ms, 3_000);
    assert_eq!(draft.stats.avg_speed, 10_000);
    assert_eq!(draft.stats.start_battery_temp, Some(10_000));
    let survey = Survey { legs: vec![1_112_000], from_home: vec![0, 1_112_000], country_code: "DE".to_string() };
    let result = LogParser::finish(draft, &survey, 99);
    assert_eq!(result.metadata.id, 99);
    assert_eq!(result.metadata.total_distance, Some(1_112_000));
    // Noon UTC is one in the afternoon at home.
    assert_eq!(
        result.tags,
        strings(&["Cold Battery", "High Altitude", "Long Distance", "Short Flight", "Aggressive Flying", "Germany", "Europe"])
    );
    assert!(result.manual_tags.is_empty());
    assert_eq!(result.notes, None);
}

#[test]
fn frames_without_a_point_give_no_flight() {
    let parser = LogParser::new();
    assert_eq!(parser.parse_frames("a.txt", "a", "h", &details(), &Vec::new()).err(), Some(ParserError::NoTelemetryData));
    let mut bad = frame(1, 1, None);
    bad.height = Reading::NotFinite;
    assert_eq!(
        parser.parse_frames("a.txt", "a", "h", &details(), &vec![bad.clone(), bad]).err(),
        Some(ParserError::NoTelemetryData)
    );
}

#[test]
fn what_the_header_states_is_tidied() {
    let parser = LogParser::new();
    let mut d = details();
    d.product_type = "Unknown(77)".to_string();
    d.aircraft_sn = "   ".to_string();
    d.aircraft_name = " \t".to_string();
    d.battery_sn = "".to_string();
    d.total_time_ms = 0;
    assert_eq!(parser.extract_drone_model(&d), None);
    assert_eq!(parser.extract_serial(&d), None);
    assert_eq!(parser.extract_aircraft_name(&d), None);
    assert_eq!(parser.extract_battery_serial(&d), None);
    assert_eq!(parser.extract_start_time(&d), Some(1_710_072_000_000_000));
    assert_eq!(parser.extract_end_time(&d), Some(1_710_072_000_000_000));
    d.aircraft_name = " Bee ".to_string();
    assert_eq!(parser.extract_aircraft_name(&d), Some(" Bee ".to_string()));
    let draft = parser.parse_frames("a.txt", "", "h", &d, &vec![frame(1, 1, Some(7_000))]).unwrap();
    assert_eq!(draft.metadata.display_name, "a.txt");
    // Without a declared duration the time of the last point is the duration.
    assert_eq!(draft.metadata.duration_ms, Some(7_000));
    assert_eq!(draft.metadata.home_lat, None);
    assert_eq!(display_name("a.txt", "  "), "a.txt");
    assert_eq!(display_name("a.txt", "a"), "a");
    assert_eq!(keep_unless_blank("x"), Some("x".to_string()));
    assert_eq!(keep_unless_blank(" "), None);
    assert_eq!(add_millis(5, 2), 2_005);
    assert_eq!(add_millis(i64::MAX, 1), i64::MAX);
    assert_eq!(add_millis(i64::MIN, -1), i64::MIN);
    assert_eq!(count_points(7), 7);
    assert_eq!(count_points(3_000_000_000), i32::MAX);
    assert_eq!(compute_speed_over(130_000, 3_250), 40_000);
    assert_eq!(compute_speed_over(-1_999, 1_000), -1_999);
    assert_eq!(compute_speed_over(1, 3), 333);
    assert_eq!(compute_speed_over(5, 0), 0);
    assert_eq!(compute_speed_over(5, -1), 0);
    assert_eq!(compute_speed_over(i64::MAX, 1), i64::MAX);
}

fn manual() -> ManualFlight {
    ManualFlight {
        flight_title: Some("  ".to_string()),
        aircraft_name: "Bee".to_string(),
        drone_serial: " sn1 ".to_string(),
        battery_serial: "b1".to_string(),
        start_time: "2024-03-10T12:00:00+01:00".to_string(),
        duration_ms: 1_800_500,
        total_distance: Some(2_000_000),
        max_altitude: None,
        home_lat: 525_200_000,
        home_lon: 134_050_000,
        notes: Some("  ".to_string()),
    }
}

#[test]
fn a_flight_entered_by_hand() {
    let entry = create_manual_flight(&manual(), 1_234, "DE").unwrap();
    let m = &entry.metadata;
    assert_eq!(m.id, 1_234);
    assert_eq!(m.file_name, "manual_entry_1234.log");
    assert_eq!(m.display_name, "Bee");
    assert_eq!(m.file_hash, None);
    assert_eq!(m.drone_model, Some("Manual Entry (Bee)".to_string()));
    assert_eq!(m.drone_serial, Some("SN1".to_string()));
    assert_eq!(m.battery_serial, Some("B1".to_string()));
    assert_eq!(m.start_time, Some(1_710_068_400_000_000));
    assert_eq!(m.end_time, Some(1_710_070_200_000_000));
    assert_eq!(m.duration_ms, Some(1_800_500));
    assert_eq!(m.total_distance, Some(2_000_000));
    assert_eq!(m.max_altitude, None);
    assert_eq!(m.max_speed, None);
    assert_eq!(m.point_count, 0);
    assert_eq!(entry.tags, strings(&["Manual Entry", "Long Flight", "Germany", "Europe"]));
    assert_eq!(entry.notes, None);
    let mut titled = manual();
    titled.flight_title = Some("Harbour".to_string());
    titled.notes = Some("calm".to_string());
    let entry = create_manual_flight(&titled, -5, "").unwrap();
    assert_eq!(entry.metadata.display_name, "Harbour");
    assert_eq!(entry.metadata.file_name, "manual_entry_-5.log");
    assert_eq!(entry.notes, Some("calm".to_string()));
    assert_eq!(write_signed(i64::MIN), "-9223372036854775808");
    assert_eq!(write_signed(0), "0");
}

#[test]
fn an_entry_by_hand_needs_its_names_and_its_start() {
    let fault = |change: &dyn Fn(&mut ManualFlight)| {
        let mut m = manual();
        change(&mut m);
        create_manual_flight(&m, 1, "").err()
    };
    assert_eq!(fault(&|m| m.aircraft_name = " ".to_string()), Some("Aircraft name is required".to_string()));
    assert_eq!(fault(&|m| m.drone_serial = "".to_string()), Some("Drone serial is required".to_string()));
    assert_eq!(fault(&|m| m.battery_serial = "\t".to_string()), Some("Battery serial is required".to_string()));
    assert_eq!(fault(&|m| m.start_time = "2024-03-10 12:00".to_string()), Some("Invalid start time format".to_string()));
    assert_eq!(
        fault(&|m| {
            m.aircraft_name = "".to_string();
            m.start_time = "".to_string();
        }),
        Some("Aircraft name is required".to_string())
    );
    assert_eq!(fault(&|_| {}), None);
}

#[test]
fn a_listed_flight_stands_for_its_metadata() {
    let flight = Flight {
        id: 3,
        file_name: "a.txt".to_string(),
        display_name: "A".to_string(),
        file_hash: Some("h".to_string()),
        drone_model: Some("Mini".to_string()),
        drone_serial: None,
        aircraft_name: Some("Bee".to_string()),
        battery_serial: Some("B".to_string()),
        start_time: Some("2026-02-01 14:35:52".to_string()),
        duration_ms: Some(5),
        total_distance: Some(6),
        max_altitude: Some(7),
        max_speed: Some(8),
        home_lat: Some(9),
        home_lon: Some(10),
        point_count: None,
        photo_count: None,
        video_count: None,
        tags: vec![FlightTag { tag: "x".to_string(), tag_type: "auto".to_string() }],
        notes: Some("n".to_string()),
    };
    let m = metadata_of_flight(&flight);
    assert_eq!(m.id, 3);
    assert_eq!(m.file_name, "a.txt");
    assert_eq!(m.display_name, "A");
    assert_eq!(m.file_hash, None);
    assert_eq!(m.drone_model, Some("Mini".to_string()));
    assert_eq!(m.drone_serial, None);
    assert_eq!(m.start_time, Some(1_769_956_552_000_000));
    assert_eq!(m.end_time, None);
    assert_eq!((m.duration_ms, m.total_distance, m.max_altitude, m.max_speed), (Some(5), Some(6), Some(7), Some(8)));
    assert_eq!((m.home_lat, m.home_lon, m.point_count), (Some(9), Some(10), 0));
}

#[test]
fn every_file_of_a_sync_counts_for_itself() {
    assert_eq!(
        tally(&vec![
            SyncOutcome::Imported,
            SyncOutcome::Failed,
            SyncOutcome::Skipped,
            SyncOutcome::Imported,
            SyncOutcome::Imported,
            SyncOutcome::Skipped,
        ]),
        SyncTally { processed: 3, skipped: 2, errors: 1 }
    );
    assert_eq!(tally(&Vec::new()), SyncTally { processed: 0, skipped: 0, errors: 0 });
    assert_eq!(outcome_of_error(&ParserError::AlreadyImported("x".to_string())), SyncOutcome::Skipped);
    assert_eq!(outcome_of_error(&ParserError::NoTelemetryData), SyncOutcome::Failed);
    assert_eq!(outcome_of_error(&ParserError::Timeout(40)), SyncOutcome::Failed);
}

#[test]
fn uploaded_files_are_kept_once() {
    let keep = |kept: Option<&str>| name_to_keep("a.txt", "a", "txt", "0123456789abcdef", kept);
    assert_eq!(keep(None), Some("a.txt".to_string()));
    assert_eq!(keep(Some("0123456789abcdef")), None);
    assert_eq!(keep(Some("ffff")), Some("a_01234567.txt".to_string()));
    assert_eq!(name_to_keep("a", "a", "", "0123", Some("x")), Some("a_0123".to_string()));
    assert_eq!(name_to_keep("a.b", "a", "b", "", Some("x")), Some("a_.b".to_string()));
}

#[test]
fn the_draft_of_a_binary_log_counts_photos_and_recordings() {
    let mut frames: Vec<RawFrame> = Vec::new();
    let photo = [false, true, true, false, true, false, false, true];
    let video = [true, true, true, true, false, false, true, true];
    for k in 0..8 {
        let mut f = frame(525_200_000, 134_050_000, Some(1_000 * (k as i64 + 1)));
        f.is_photo = photo[k];
        f.is_video = video[k];
        frames.push(f);
    }
    let parser = LogParser::new();
    let draft = parser.parse_frames("a.txt", "a", "cafe", &details(), &frames).unwrap();
    assert_eq!(draft.metadata.point_count, 8);
    assert_eq!(draft.metadata.photo_count, 3);
    assert_eq!(draft.metadata.video_count, 2);
}
