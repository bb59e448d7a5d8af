use drone_logbook::litchi_parser::{check_litchi_header, ColumnMap, LitchiParser, Unit};
use drone_logbook::models::TelemetryPoint;
use drone_logbook::parser::{LogFormat, LogParser, ParserError, SourceFile, Survey};

fn strings(list: &[&str]) -> Vec<String> {
    list.iter().map(|s| s.to_string()).collect()
}

fn file(name: &str, text: &str) -> SourceFile {
    let (stem, extension) = match name.rfind('.') {
        Some(i) => (&name[..i], &name[i + 1..]),
        None => (name, ""),
    };
    SourceFile {
        file_name: name.to_string(),
        file_stem: stem.to_string(),
        extension: extension.to_string(),
        size: text.len() as u64,
        lines: text.lines().map(|l| l.to_string()).collect(),
    }
}

const LITCHI: &str = "latitude,longitude,altitude(feet),speed(mph),datetime(utc),time(millisecond),isflying,Dronetype,batteryTemperature(F),remainPowerPercent,istakingphoto,home_latitude,home_longitude,FlyControllerSerialNumber,Planename,BatterySerialNumber,flightmode
52.52,13.405,100,10,2024-03-10 17:30:00.500,0,1,6,77,90,0,52.52,13.405, sn-abc ,My Mavic,bat1,GPS
52.521,13.406,200.5,20,2024-03-10 17:30:01.500,1000,1,6,78,89,1,52.52,13.405,sn-abc,My Mavic,bat1,Sport

,13.407,300,30,2024-03-10 17:30:02.500,2000,1,6,79,88,0,,,,,,
1,2,3
";

#[test]
fn units_are_read_from_the_brackets_of_a_header() {
    assert_eq!(Unit::from_header("altitude(feet)"), Unit::Feet);
    assert_eq!(Unit::from_header("altitude(FT)"), Unit::Feet);
    assert_eq!(Unit::from_header("altitude(m)"), Unit::Meters);
    assert_eq!(Unit::from_header("x(Meters)"), Unit::Meters);
    assert_eq!(Unit::from_header("speed(mph)"), Unit::Mph);
    assert_eq!(Unit::from_header("speed(m/s)"), Unit::MetersPerSec);
    assert_eq!(Unit::from_header("t(F)"), Unit::Fahrenheit);
    assert_eq!(Unit::from_header("t(c)"), Unit::Celsius);
    assert_eq!(Unit::from_header("time(millisecond)"), Unit::Unitless);
    assert_eq!(Unit::from_header("latitude"), Unit::Unitless);
    assert_eq!(Unit::from_header("a(feet"), Unit::Unitless);
    assert_eq!(Unit::from_header("a)feet("), Unit::Unitless);
    assert_eq!(Unit::from_header("a()"), Unit::Unitless);
    assert_eq!(Unit::from_header("a(feet)(m)"), Unit::Feet);
    assert_eq!(Unit::from_tag("feet"), Unit::Feet);
    assert_eq!(Unit::from_tag("Feet"), Unit::Unitless);
}

#[test]
fn values_are_handed_out_in_metric_units() {
    assert_eq!(Unit::Feet.to_metric(100_000), 30_480);
    assert_eq!(Unit::Feet.to_metric(-100_000), -30_480);
    assert_eq!(Unit::Feet.to_metric(1), 0);
    assert_eq!(Unit::Mph.to_metric(10_000), 4_470);
    assert_eq!(Unit::Mph.to_metric(100_000), 44_704);
    assert_eq!(Unit::Fahrenheit.to_metric(32_000), 0);
    assert_eq!(Unit::Fahrenheit.to_metric(212_000), 100_000);
    assert_eq!(Unit::Fahrenheit.to_metric(-40_000), -40_000);
    assert_eq!(Unit::Fahrenheit.to_metric(0), -17_777);
    assert_eq!(Unit::Meters.to_metric(123), 123);
    assert_eq!(Unit::Celsius.to_metric(-5), -5);
    assert_eq!(Unit::Unitless.to_metric(i64::MIN), i64::MIN);
    assert_eq!(Unit::Feet.to_metric(i64::MAX), 2_811_283_796_833_335_665);
    assert_eq!(Unit::Fahrenheit.to_metric(i64::MIN), -5_124_095_576_030_448_782);
}

#[test]
fn columns_are_found_by_name_whatever_their_order() {
    let map = ColumnMap::new(&strings(&["speed(mph)", "latitude", "count", "altitude(m)", "speed(m/s)"]));
    let row = strings(&["10", "52.5200001", "-7", "12.3456"]);
    assert!(map.has_column("latitude"));
    assert!(map.has_column("speed"));
    assert!(!map.has_column("speed(mph)"));
    assert!(map.has_column("Latitude"));
    assert!(map.has_column("SPEED"));
    assert!(!map.has_column("lat"));
    assert_eq!(map.get_coordinate(&row, "latitude"), Some(525_200_001));
    assert_eq!(map.get_metric(&row, "altitude"), Some(12_345));
    assert_eq!(map.get_i32(&row, "count"), Some(-7));
    assert_eq!(map.get_bool(&row, "count"), Some(true));
    assert_eq!(map.get_str(&row, "count"), Some("-7".to_string()));
    // The last column of a name counts, and the row is too short for it.
    assert_eq!(map.get_unit("speed"), Unit::MetersPerSec);
    assert_eq!(map.get_metric(&row, "speed"), None);
    assert_eq!(map.get_str(&row, "missing"), None);
    assert_eq!(map.get_i32(&row, "latitude"), None);
    let swapped = ColumnMap::new(&strings(&["latitude", "speed(mph)"]));
    assert_eq!(swapped.get_metric(&strings(&["52", "10"]), "speed"), Some(4_470));
    assert_eq!(swapped.get_bool(&strings(&["0", "10"]), "latitude"), Some(false));
    assert_eq!(swapped.get_metric(&strings(&["52", " 10"]), "speed"), Some(4_470));
    assert_eq!(swapped.get_metric(&strings(&["52", ""]), "speed"), None);
    assert_eq!(swapped.get_metric(&strings(&["52", "  "]), "speed"), None);
    assert_eq!(swapped.get_metric(&strings(&["52", "fast"]), "speed"), None);
}

#[test]
fn litchi_columns_are_found_whatever_the_case_of_their_names() {
    let map = ColumnMap::new(&strings(&["latitude", "Altitude(feet)", "speed(mph)", "FlightMode"]));
    let row = strings(&["45.0", "100", "10", "  GPS "]);
    assert!(map.has_column("altitude"));
    assert!(map.has_column("ALTITUDE"));
    assert_eq!(map.get_unit("altitude"), Unit::Feet);
    assert_eq!(map.get_metric(&row, "altitude"), Some(30_480));
    assert_eq!(map.get_metric(&row, "Speed"), Some(4_470));
    assert_eq!(map.get_coordinate(&row, "latitude"), Some(450_000_000));
    assert_eq!(map.get_str(&row, "flightmode"), Some("GPS".to_string()));
    assert_eq!(map.names, strings(&["latitude", "altitude", "speed", "flightmode"]));
}

#[test]
fn a_blank_cell_holds_nothing() {
    let map = ColumnMap::new(&strings(&["flight_mode", "count"]));
    assert_eq!(map.get_str(&strings(&["  GPS ", "1"]), "flight_mode"), Some("GPS".to_string()));
    assert_eq!(map.get_str(&strings(&["   ", "1"]), "flight_mode"), None);
    assert_eq!(map.get_str(&strings(&["", "1"]), "flight_mode"), None);
    assert_eq!(map.get_str(&strings(&["\t", " 1 "]), "flight_mode"), None);
    assert_eq!(map.get_i32(&strings(&["", " 1 "]), "count"), Some(1));
    assert_eq!(map.get_bool(&strings(&["", " "]), "count"), None);
    assert_eq!(map.get_str(&strings(&[]), "flight_mode"), None);
}

#[test]
fn a_litchi_file_is_told_by_its_extension_and_its_header() {
    assert!(check_litchi_header("latitude,longitude,datetime(utc),isflying"));
    assert!(check_litchi_header("x,planename,datetime(local),longitude,latitude"));
    assert!(!check_litchi_header("latitude,longitude,datetime(utc)"));
    assert!(!check_litchi_header("latitude,longitude,datetime,isflying"));
    assert!(!check_litchi_header("latitude,datetime(utc),isflying"));
    let f = file("flight.CSV", LITCHI);
    assert!(LitchiParser::is_litchi_csv("CSV", &f.lines));
    assert!(!LitchiParser::is_litchi_csv("txt", &f.lines));
    assert!(!LitchiParser::is_litchi_csv("csv", &Vec::new()));
    assert_eq!(LogParser::classify(&f), LogFormat::LitchiCsv);
    // The header is the first line that is not blank.
    let shifted = file("flight.csv", &format!("\n  \n{}", LITCHI));
    assert!(LitchiParser::is_litchi_csv("csv", &shifted.lines));
    assert_eq!(LogParser::classify(&shifted), LogFormat::LitchiCsv);
    let draft = LitchiParser::new().parse(&shifted, "abc123").unwrap();
    assert_eq!(draft.points, LitchiParser::new().parse(&f, "abc123").unwrap().points);
    let blank = file("flight.csv", "\n \n");
    assert_eq!(LogParser::classify(&blank), LogFormat::Unsupported);
    assert_eq!(
        LitchiParser::new().parse(&blank, "h"),
        Err(ParserError::Parse("Empty CSV file".to_string()))
    );
}

#[test]
fn a_litchi_file_is_parsed_row_by_row() {
    let f = file("2024-03-10_flight.csv", LITCHI);
    let draft = LitchiParser::new().parse(&f, "abc123").unwrap();
    assert_eq!(draft.format, LogFormat::LitchiCsv);
    assert_eq!(draft.points.len(), 2);
    let mut first = TelemetryPoint::new(0);
    first.latitude = Some(525_200_000);
    first.longitude = Some(134_050_000);
    first.altitude = Some(30_480);
    first.speed = Some(4_470);
    first.battery_percent = Some(90);
    first.battery_temp = Some(25_000);
    first.flight_mode = Some("GPS".to_string());
    first.is_photo = Some(false);
    assert_eq!(draft.points[0], first);
    let second = &draft.points[1];
    assert_eq!(second.timestamp_ms, 1_000);
    assert_eq!(second.altitude, Some(61_112));
    assert_eq!(second.speed, Some(8_940));
    assert_eq!(second.battery_temp, Some(25_555));
    assert_eq!(second.is_photo, Some(true));
    assert_eq!(second.flight_mode, Some("Sport".to_string()));
    let m = &draft.metadata;
    assert_eq!(m.id, 0);
    assert_eq!(m.file_name, "2024-03-10_flight.csv");
    assert_eq!(m.display_name, "2024-03-10_flight");
    assert_eq!(m.file_hash, Some("abc123".to_string()));
    assert_eq!(m.drone_model, Some("Mavic Pro".to_string()));
    assert_eq!(m.drone_serial, Some("SN-ABC".to_string()));
    assert_eq!(m.aircraft_name, Some("My Mavic".to_string()));
    assert_eq!(m.battery_serial, Some("BAT1".to_string()));
    assert_eq!(m.start_time, Some(1_710_091_800_500_000));
    // The end is read from the last row, though it has no position.
    assert_eq!(m.end_time, Some(1_710_091_802_500_000));
    assert_eq!(m.duration_ms, Some(2_000));
    assert_eq!(m.total_distance, None);
    assert_eq!(m.max_altitude, Some(61_112));
    assert_eq!(m.max_speed, Some(8_940));
    assert_eq!(m.home_lat, Some(525_200_000));
    assert_eq!(m.home_lon, Some(134_050_000));
    assert_eq!(m.point_count, 2);
    assert_eq!((m.photo_count, m.video_count), (1, 0));
    let s = &draft.stats;
    assert_eq!(s.duration_ms, 1_000);
    assert_eq!(s.avg_speed, 6_705);
    assert_eq!(s.min_battery, 89);
    assert_eq!(s.home_location, Some((134_050_000, 525_200_000)));
    assert_eq!(s.start_battery_percent, Some(90));
    assert_eq!(s.end_battery_percent, Some(88));
    assert_eq!(s.start_battery_temp, Some(25_000));
    assert!(draft.imported_tags.is_empty() && draft.manual_tags.is_empty() && draft.notes.is_none());
}

#[test]
fn a_finished_litchi_flight_has_the_tag_litchi_first() {
    let f = file("flight.csv", LITCHI);
    let draft = LitchiParser::new().parse(&f, "abc123").unwrap();
    let survey = Survey { legs: vec![130_000], from_home: vec![0, 1_300_000], country_code: "DE".to_string() };
    let result = LogParser::finish(draft, &survey, 42);
    assert_eq!(result.metadata.id, 42);
    assert_eq!(result.metadata.total_distance, Some(130_000));
    assert_eq!(result.points.len(), 2);
    // Half past six in the evening at home, a second long, a kilometre away.
    assert_eq!(result.tags, strings(&["Litchi", "Long Distance", "Short Flight", "Germany", "Europe"]));
}

#[test]
fn times_of_day_are_moved_back_to_begin_at_zero() {
    let text = "latitude,longitude,datetime(utc),isflying
1.5,2.5,2024-03-10 17:30:02.250,1
1.6,2.6,2024-03-10 17:30:01.000,1
1.7,2.7,2024-03-10 17:30:03,1
";
    let draft = LitchiParser::new().parse(&file("a.csv", text), "h").unwrap();
    let times: Vec<i64> = draft.points.iter().map(|p| p.timestamp_ms).collect();
    assert_eq!(times, vec![0, 1_250, 2_000]);
    let lats: Vec<Option<i64>> = draft.points.iter().map(|p| p.latitude).collect();
    assert_eq!(lats, vec![Some(16_000_000), Some(15_000_000), Some(17_000_000)]);
    assert_eq!(draft.metadata.duration_ms, Some(750));
    assert_eq!(draft.stats.duration_ms, 2_000);
    assert_eq!(draft.stats.home_location, None);
    assert_eq!(draft.metadata.drone_model, None);
}

#[test]
fn drone_types_by_their_codes() {
    let p = LitchiParser::new();
    assert_eq!(p.map_drone_type("0"), "Unknown");
    assert_eq!(p.map_drone_type(" 14 "), "Mavic 2 Pro");
    assert_eq!(p.map_drone_type("58"), "Mini SE");
    assert_eq!(p.map_drone_type("12"), "DJI Drone (12)");
    assert_eq!(p.map_drone_type(" x "), "DJI Drone ( x )");
}

#[test]
fn a_file_without_lines_and_a_file_without_positions() {
    let empty = file("a.csv", "");
    assert_eq!(LitchiParser::new().parse(&empty, "h"), Err(ParserError::Parse("Empty CSV file".to_string())));
    let header_only = file("a.csv", "latitude,longitude,datetime(utc),isflying\n");
    assert_eq!(LitchiParser::new().parse(&header_only, "h"), Err(ParserError::NoTelemetryData));
    let blind = file("a.csv", "latitude,longitude,datetime(utc),isflying\n,2.5,2024-03-10 17:30:02,1\nnan,inf,x,1\n");
    assert_eq!(LitchiParser::new().parse(&blind, "h"), Err(ParserError::NoTelemetryData));
}

#[test]
fn rows_go_through_the_filters_of_every_source() {
    let text = "latitude,longitude,altitude(m),ultrasonicHeight(m),speed(m/s),velocityX(m/s),datetime(utc),time(millisecond),isflying
0.0000001,-0.0000002,10,1,5,1,2024-03-10 17:30:00,0,1
91.0,13.4,10,1,5,1,2024-03-10 17:30:01,1000,1
52.5,181,10,1,5,1,2024-03-10 17:30:02,2000,1
52.5,13.4,10000,-10000.5,100,7,2024-03-10 17:30:03,3000,1
52.5,13.4,9999.999,1,99.999,-7,2024-03-10 17:30:04,4000,1
";
    let draft = LitchiParser::new().parse(&file("a.csv", text), "h").unwrap();
    // No lock and out of range: those rows have no position and give no point.
    assert_eq!(draft.points.len(), 2);
    let a = &draft.points[0];
    // The points that are left begin at time zero.
    assert_eq!(a.timestamp_ms, 0);
    assert_eq!(draft.points[1].timestamp_ms, 1_000);
    assert_eq!((a.latitude, a.longitude), (Some(525_000_000), Some(134_000_000)));
    assert_eq!(a.altitude, None);
    assert_eq!(a.height, None);
    assert_eq!(a.vps_height, Some(-10_000_500));
    assert_eq!(a.speed, None);
    assert_eq!(a.velocity_x, Some(7_000));
    let b = &draft.points[1];
    assert_eq!(b.altitude, Some(9_999_999));
    assert_eq!(b.speed, Some(99_999));
    assert_eq!(b.velocity_x, Some(-7_000));
}

#[test]
fn a_litchi_row_whose_position_is_no_number_is_dropped_whole() {
    let header = "Latitude,Longitude,Altitude(feet),datetime(utc),time(millisecond),isflying";
    let text = format!(
        "{}\n52.52,13.405,100,2024-03-10 17:30:00.500,0,1\nNaN,13.406,100,2024-03-10 17:30:01.500,1000,1\n52.522, 13.407 ,inf,2024-03-10 17:30:02.500,2000,1\n",
        header
    );
    let f = file("flight.csv", &text);
    let draft = LitchiParser::new().parse(&f, "abc").unwrap();
    let times: Vec<i64> = draft.points.iter().map(|p| p.timestamp_ms).collect();
    assert_eq!(times, vec![0, 2_000]);
    assert_eq!(draft.points[0].altitude, Some(30_480));
    assert_eq!(draft.points[1].altitude, None);
    assert_eq!(draft.points[1].longitude, Some(134_070_000));
}
