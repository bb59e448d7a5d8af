use drone_logbook::dronelogbook_parser::{
    check_dronelogbook_header, parse_csv_line, read_export_metadata, read_flag, ColumnMap,
    DroneLogbookParser, ExportMetadata,
};
use drone_logbook::regenerate::parse_stored_instant;
use drone_logbook::parser::{LogFormat, LogParser, ParseStep, ParserError, SourceFile, Survey};
use drone_logbook::timestamps::{extract_datetime_from_filename, parse_timestamp_flexible};

fn strings(list: &[&str]) -> Vec<String> {
    list.iter().map(|s| s.to_string()).collect()
}

fn file(name: &str, text: &str) -> SourceFile {
    let (stem, extension) = match name.rfind('.') {
        Some(i) => (&name[..i], &name[i + 1..]),
        None => (name, ""),
    };
    SourceFile {
        file_name: name.to_string(),
        file_stem: stem.to_string(),
        extension: extension.to_string(),
        size: text.len() as u64,
        lines: text.lines().map(|l| l.to_string()).collect(),
    }
}

const EXPORT: &str = r#"
time_s,lat,lng,alt_m,height_m,speed_ms,battery_percent,is_photo,rc_aileron,vps_height_m,flight_mode,metadata

0.0,52.52,13.405,10.5,10,3.5,90,false,0,9.5,GPS,"{""display_name"":""Sunset"",""drone_serial"":"" sn1 "",""battery_serial"":""b1"",""start_time"":""2024-03-10 17:30:00+00"",""home_lat"":52.5,""home_lon"":13.4,""duration_secs"":65.5,""notes"":""windy"",""tags"":[{""tag"":""High Speed"",""tag_type"":""auto""},{""tag"":""mine"",""tag_type"":""manual""},{""tag"":""Re-imported""},{""tag"":""""},7],""drone_model"":""Mavic 3"",""Aircraft_Name"":""Bee"",""nested"":{""a"":1},""flag"":true}"
1.5,52.521,13.406,12,11,4,89,1,50,9.6,GPS,
3.25,,13.407,99,11,40,88,0,50,9.6,GPS,
"#;

#[test]
fn lines_with_quoted_fields() {
    assert_eq!(parse_csv_line("a, b ,c"), vec!["a", "b", "c"]);
    assert_eq!(parse_csv_line(""), vec![""]);
    assert_eq!(parse_csv_line(",,"), vec!["", "", ""]);
    assert_eq!(parse_csv_line(r#"1,"a,b",2"#), vec!["1", "a,b", "2"]);
    assert_eq!(parse_csv_line(r#""say ""hi""",x"#), vec!["say \"hi\"", "x"]);
    assert_eq!(parse_csv_line(r#"" padded ",x"#), vec!["padded", "x"]);
    assert_eq!(parse_csv_line(r#"a"b"c,d"#), vec!["abc", "d"]);
    assert_eq!(parse_csv_line(r#""open,never closed"#), vec!["open,never closed"]);
    assert_eq!(parse_csv_line(r#""""""#), vec!["\""]);
    assert_eq!(parse_csv_line(r#"x,"{""k"":""v, w""}""#), vec!["x", "{\"k\":\"v, w\"}"]);
}

#[test]
fn the_metadata_that_a_file_brings_along() {
    let meta = read_export_metadata(
        r#"{"Display_Name":"Sunset","n":12.5,"ok":false,"skip":null,"deep":{"a":1},"list":[1],"tags":[{"tag":"A"},{"tag":"B","tag_type":"manual"},{"tag":"C","tag_type":"other"},{"tag_type":"manual"},{"tag":5},"D",{"tag":""}]}"#,
    );
    assert_eq!(
        meta,
        ExportMetadata {
            entries: vec![
                ("display_name".to_string(), "Sunset".to_string()),
                ("n".to_string(), "12.5".to_string()),
                ("ok".to_string(), "false".to_string()),
            ],
            auto_tags: strings(&["A", "C"]),
            manual_tags: strings(&["B"]),
        }
    );
    let nothing = ExportMetadata { entries: Vec::new(), auto_tags: Vec::new(), manual_tags: Vec::new() };
    assert_eq!(read_export_metadata("[1]"), nothing);
    assert_eq!(read_export_metadata("not json"), nothing);
    assert_eq!(read_export_metadata(r#"{"tags":"A"}"#), nothing);
}

#[test]
fn columns_are_found_whatever_the_case_of_their_names() {
    let map = ColumnMap::new(&strings(&["Time_S", "LAT", "is_photo", "note", "lat"]));
    let row = strings(&[" 1.5 ", "52.5", " TRUE ", "  ", "53.5"]);
    assert_eq!(map.get_milli(&row, "time_s"), Some(1_500));
    assert_eq!(map.get_milli(&row, "TIME_S"), Some(1_500));
    assert_eq!(map.get_coordinate(&row, "Lat"), Some(535_000_000));
    assert_eq!(map.get_bool(&row, "is_photo"), Some(true));
    assert_eq!(map.get_str(&row, "is_photo"), Some("TRUE".to_string()));
    assert_eq!(map.get_str(&row, "note"), None);
    assert_eq!(map.get_i32(&row, "note"), None);
    assert_eq!(map.get_i32(&row, "time_s"), None);
    assert_eq!(map.get_i32(&strings(&[" -12 "]), "time_s"), Some(-12));
    assert_eq!(map.get_str(&row, "missing"), None);
    assert_eq!(map.get_str(&strings(&["x"]), "lat"), None);
    for (text, flag) in [("1", Some(true)), ("true", Some(true)), ("True", Some(true)), ("TRUE", Some(true)), ("0", Some(false)), ("false", Some(false)), ("False", Some(false)), ("FALSE", Some(false)), ("tRue", None), ("2", None), ("", None), ("yes", None)] {
        assert_eq!(read_flag(text), flag, "{:?}", text);
    }
}

#[test]
fn a_file_of_this_logbook_is_told_by_its_extension_and_its_header() {
    assert!(check_dronelogbook_header("time_s,lat,lng,alt_m,height_m,metadata"));
    assert!(check_dronelogbook_header("time_s,lat,lng,alt_m,distance_to_home_m,rc_aileron"));
    assert!(check_dronelogbook_header("time_s,lat,lng,alt_m,vps_height_m"));
    assert!(!check_dronelogbook_header("time_s,lat,lng,alt_m,height_m"));
    assert!(!check_dronelogbook_header("time_s,lat,lng,alt_m,metadata"));
    assert!(!check_dronelogbook_header("lat,lng,alt_m,height_m,metadata"));
    let f = file("Sunset.csv", EXPORT);
    assert!(DroneLogbookParser::is_dronelogbook_csv("csv", &f.lines));
    assert!(DroneLogbookParser::is_dronelogbook_csv("Csv", &f.lines));
    assert!(!DroneLogbookParser::is_dronelogbook_csv("txt", &f.lines));
    assert!(!DroneLogbookParser::is_dronelogbook_csv("csv", &strings(&["", " "])));
    assert_eq!(LogParser::classify(&f), LogFormat::DroneLogbookCsv);
    let upper = file("Sunset.csv", "TIME_S,LAT,LNG,ALT_M,HEIGHT_M,METADATA\n");
    assert_eq!(LogParser::classify(&upper), LogFormat::DroneLogbookCsv);
}

#[test]
fn a_file_of_this_logbook_is_parsed_with_its_metadata() {
    let f = file("Export_2020-01-01_00-00-00.csv", EXPORT);
    let draft = DroneLogbookParser::new().parse(&f, "feed").unwrap();
    assert_eq!(draft.format, LogFormat::DroneLogbookCsv);
    assert_eq!(draft.points.len(), 2);
    let p = &draft.points[0];
    assert_eq!(p.timestamp_ms, 0);
    assert_eq!(p.latitude, Some(525_200_000));
    assert_eq!(p.longitude, Some(134_050_000));
    assert_eq!(p.altitude, Some(10_500));
    assert_eq!(p.height, Some(10_000));
    assert_eq!(p.vps_height, Some(9_500));
    assert_eq!(p.speed, Some(3_500));
    assert_eq!(p.battery_percent, Some(90));
    assert_eq!(p.is_photo, Some(false));
    assert_eq!(p.rc_aileron, Some(0));
    assert_eq!(p.flight_mode, Some("GPS".to_string()));
    assert_eq!(p.altitude_abs, None);
    let q = &draft.points[1];
    assert_eq!(q.timestamp_ms, 1_500);
    assert_eq!(q.is_photo, Some(true));
    assert_eq!(q.rc_aileron, Some(50_000));
    let m = &draft.metadata;
    assert_eq!(m.display_name, "Sunset");
    assert_eq!(m.file_name, "Export_2020-01-01_00-00-00.csv");
    assert_eq!(m.file_hash, Some("feed".to_string()));
    assert_eq!(m.drone_model, Some("Mavic 3".to_string()));
    assert_eq!(m.drone_serial, Some("SN1".to_string()));
    assert_eq!(m.aircraft_name, Some("Bee".to_string()));
    assert_eq!(m.battery_serial, Some("B1".to_string()));
    // The start that the metadata state counts before the name of the file.
    assert_eq!(m.start_time, Some(1_710_091_800_000_000));
    assert_eq!(m.duration_ms, Some(3_250));
    assert_eq!(m.end_time, Some(1_710_091_803_000_000));
    assert_eq!(m.max_altitude, Some(99_000));
    assert_eq!(m.max_speed, Some(40_000));
    assert_eq!(m.home_lat, Some(525_000_000));
    assert_eq!(m.home_lon, Some(134_000_000));
    assert_eq!(m.point_count, 2);
    assert_eq!((m.photo_count, m.video_count), (1, 0));
    assert_eq!(draft.stats.duration_ms, 3_250);
    assert_eq!(draft.stats.min_battery, 89);
    assert_eq!(draft.stats.home_location, Some((134_000_000, 525_000_000)));
    assert_eq!(draft.stats.start_battery_percent, Some(90));
    assert_eq!(draft.stats.end_battery_percent, Some(89));
    assert_eq!(draft.imported_tags, strings(&["High Speed", "Re-imported"]));
    assert_eq!(draft.manual_tags, strings(&["mine"]));
    assert_eq!(draft.notes, Some("windy".to_string()));
    let survey = Survey { legs: vec![130_000], from_home: vec![9, 9], country_code: "DE".to_string() };
    let result = LogParser::finish(draft, &survey, 7);
    assert_eq!(result.metadata.id, 7);
    assert_eq!(result.metadata.total_distance, Some(130_000));
    assert_eq!(
        result.tags,
        strings(&["Re-imported", "High Speed", "Short Flight", "Aggressive Flying", "Germany", "Europe"])
    );
    assert_eq!(result.manual_tags, strings(&["mine"]));
    assert_eq!(result.notes, Some("windy".to_string()));
}

#[test]
fn without_metadata_the_rows_and_the_name_of_the_file_tell() {
    let text = "time_s,lat,lng,alt_m,height_m,vps_height_m\n5,,\n7,1.5,2.5,-3,,\n6,1.6,2.6,4,,\n";
    let f = file("DJIFlightRecord_2026-01-27_10-56-42.csv", text);
    let draft = DroneLogbookParser::new().parse(&f, "h").unwrap();
    let times: Vec<i64> = draft.points.iter().map(|p| p.timestamp_ms).collect();
    assert_eq!(times, vec![6_000, 7_000]);
    let m = &draft.metadata;
    assert_eq!(m.display_name, "DJIFlightRecord_2026-01-27_10-56-42");
    assert_eq!(m.start_time, Some(1_769_511_402_000_000));
    // From the first time that a row states to the last: five to six.
    assert_eq!(m.duration_ms, Some(1_000));
    assert_eq!(m.end_time, Some(1_769_511_403_000_000));
    // The home is the first row with a position.
    assert_eq!((m.home_lat, m.home_lon), (Some(15_000_000), Some(25_000_000)));
    assert_eq!(m.max_altitude, Some(4_000));
    assert_eq!(m.max_speed, Some(0));
    assert_eq!(m.drone_serial, None);
    assert!(draft.imported_tags.is_empty());
    assert_eq!(draft.notes, None);
}

#[test]
fn a_file_without_a_header_and_a_file_without_positions() {
    let p = DroneLogbookParser::new();
    assert_eq!(
        p.parse(&file("a.csv", "\n  \n"), "h"),
        Err(ParserError::Parse("No header line found in CSV file".to_string()))
    );
    assert_eq!(p.parse(&file("a.csv", "time_s,lat,lng\n"), "h"), Err(ParserError::NoTelemetryData));
    assert_eq!(p.parse(&file("a.csv", "time_s,lat,lng\n1,2,\n1,,3\n"), "h"), Err(ParserError::NoTelemetryData));
}

#[test]
fn a_file_goes_the_way_of_its_format() {
    let parser = LogParser::new();
    let export = file("Sunset.csv", EXPORT);
    match parser.parse_log(&export, "feed", None) {
        Ok(ParseStep::Parsed(d)) => assert_eq!(d.format, LogFormat::DroneLogbookCsv),
        other => panic!("{:?}", other),
    }
    assert_eq!(
        parser.parse_log(&export, "feed", Some("Sunset".to_string())),
        Err(ParserError::AlreadyImported("Sunset".to_string()))
    );
    let mut binary = file("DJIFlightRecord.TXT", "");
    binary.size = 1_024;
    assert_eq!(parser.parse_log(&binary, "h", None), Ok(ParseStep::Decode));
    assert_eq!(LogParser::classify(&binary), LogFormat::BinaryLog);
    binary.size = 0;
    assert_eq!(parser.parse_log(&binary, "h", None), Err(ParserError::IncompatibleFile));
    let other = file("notes.csv", "a,b,c\n1,2,3\n");
    assert_eq!(parser.parse_log(&other, "h", None), Err(ParserError::IncompatibleFile));
    let image = file("photo.jpg", "x");
    assert_eq!(parser.parse_log(&image, "h", None), Err(ParserError::IncompatibleFile));
    let bare = file("README", "x");
    assert_eq!(LogParser::classify(&bare), LogFormat::Unsupported);
    let empty_export = file("Sunset.csv", "time_s,lat,lng,alt_m,height_m,metadata\n");
    assert_eq!(parser.parse_log(&empty_export, "h", None), Err(ParserError::NoTelemetryData));
}

#[test]
fn instants_are_read_in_the_forms_of_stores_and_exports() {
    let t = Some(1_769_956_552_000_000);
    assert_eq!(parse_stored_instant("2026-02-01T14:35:52+00:00"), t);
    assert_eq!(parse_stored_instant("2026-02-01T14:35:52Z"), t);
    assert_eq!(parse_stored_instant("2026-02-01T16:35:52.250+02:00"), Some(1_769_956_552_250_000));
    assert_eq!(parse_stored_instant("2026-02-01 14:35:52"), t);
    assert_eq!(parse_stored_instant("2026-02-01 14:35:52.5"), Some(1_769_956_552_500_000));
    assert_eq!(parse_stored_instant("1969-12-31 23:59:59.999"), Some(-1_000));
    assert_eq!(parse_stored_instant("2026-02-01T14:35:52"), None);
    assert_eq!(parse_stored_instant("2026-02-01"), None);
    assert_eq!(parse_stored_instant("yesterday"), None);
    for text in [
        "2026-02-01T14:35:52+00:00",
        " 2026-02-01T14:35:52Z ",
        "2026-02-01 14:35:52+00",
        "2026-02-01 14:35:52-00",
        "2026-02-01T14:35:52",
        "2026-02-01 14:35:52",
        "2026-02-01 14:35:52.000",
        "2026-02-01T14:35:52.000000",
        "2026-02-01 15:35:52+01",
        "2026-02-01 09:35:52-05",
    ] {
        assert_eq!(parse_timestamp_flexible(text), t, "{:?}", text);
    }
    for text in ["", "x", "+00", "2026-02-01", "2026-02-01 14:35", "2026-02-01 14:35:52+1", "2026-13-01 14:35:52"] {
        assert_eq!(parse_timestamp_flexible(text), None, "{:?}", text);
    }
}

#[test]
fn the_date_and_time_in_the_name_of_a_file() {
    let t = Some(1_769_511_402_000_000);
    assert_eq!(extract_datetime_from_filename("DJIFlightRecord_2026-01-27_10-56-42"), t);
    assert_eq!(extract_datetime_from_filename("DJIFlightRecord_2026-01-27_10-56-42.csv"), t);
    assert_eq!(extract_datetime_from_filename("DJIFlightRecord_2026-01-27_10-56-42.CSV"), t);
    assert_eq!(extract_datetime_from_filename("a_b_2026-01-27_10-56-42_c"), t);
    assert_eq!(extract_datetime_from_filename("x_2026-01-27_10-56-42.csv.csv"), t);
    assert_eq!(extract_datetime_from_filename("2026-01-27_10-56-42"), None);
    assert_eq!(extract_datetime_from_filename("a_2026-01-27_10-56"), None);
    assert_eq!(extract_datetime_from_filename("a_2026-1-27_10-56-42"), None);
    assert_eq!(extract_datetime_from_filename("a_2026-01-27_25-56-42"), None);
    assert_eq!(extract_datetime_from_filename("flight"), None);
    assert_eq!(extract_datetime_from_filename(""), None);
    assert_eq!(extract_datetime_from_filename("a_2026-01-27_x_10-56-42"), None);
}

#[test]
fn a_row_whose_position_is_no_number_is_dropped_whole() {
    let times = |text: &str| -> Vec<i64> {
        let f = file("flight.csv", text);
        let draft = DroneLogbookParser::new().parse(&f, "feed").unwrap();
        draft.points.iter().map(|p| p.timestamp_ms).collect()
    };
    let header = "time_s,lat,lng,alt_m,height_m,vps_height_m\n";
    let good = format!("{}0.0,52.52,13.405,10,10,9\n1.0,52.521,13.406,11,11,9\n2.0,52.522,13.407,12,12,9\n", header);
    assert_eq!(times(&good), vec![0, 1_000, 2_000]);
    for bad in ["NaN", "nan", "inf", "-inf", "Infinity", "", "north"] {
        let text = format!(
            "{}0.0,52.52,13.405,10,10,9\n1.0,{},13.406,11,11,9\n2.0,52.522,13.407,12,12,9\n",
            header, bad
        );
        assert_eq!(times(&text), vec![0, 2_000], "latitude {:?}", bad);
        let text = format!(
            "{}0.0,52.52,13.405,10,10,9\n1.0,52.521,{},11,11,9\n2.0,52.522,13.407,12,12,9\n",
            header, bad
        );
        assert_eq!(times(&text), vec![0, 2_000], "longitude {:?}", bad);
    }
    // What is no number elsewhere costs the row that value and no more.
    let text = format!("{}0.0,52.52,13.405,NaN,inf,9\n1.0,52.521,13.406,11,11,9\n", header);
    let f = file("flight.csv", &text);
    let draft = DroneLogbookParser::new().parse(&f, "feed").unwrap();
    assert_eq!(draft.points.len(), 2);
    assert_eq!((draft.points[0].altitude, draft.points[0].height), (None, None));
    assert_eq!(draft.points[0].vps_height, Some(9_000));
}
