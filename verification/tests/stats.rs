use drone_logbook::models::{TelemetryPoint, TelemetryRecord};
use drone_logbook::parser::{calculate_stats_from_records, LogParser};
use drone_logbook::stats::{
    check_busy, count_shots, Camera, first_of, largest, last_of, longest, mean_of_above, positions_of_points, positions_of_records,
    route_of_records, smallest, total_of, Position,
};

fn point(t: i64) -> TelemetryPoint {
    TelemetryPoint::new(t)
}

fn record(t: i64) -> TelemetryRecord {
    TelemetryRecord {
        timestamp_ms: t,
        latitude: None,
        longitude: None,
        altitude: None,
        height: None,
        vps_height: None,
        speed: None,
        velocity_x: None,
        velocity_y: None,
        velocity_z: None,
        battery_percent: None,
        battery_voltage: None,
        battery_temp: None,
        cell_voltages: None,
        pitch: None,
        roll: None,
        yaw: None,
        satellites: None,
        flight_mode: None,
        rc_signal: None,
        rc_uplink: None,
        rc_downlink: None,
        rc_aileron: None,
        rc_elevator: None,
        rc_throttle: None,
        rc_rudder: None,
        is_photo: None,
        is_video: None,
    }
}

#[test]
fn folds_pass_over_what_is_not_there() {
    let values = vec![None, Some(5), None, Some(-7), Some(12), None];
    assert_eq!(largest(&values), Some(12));
    assert_eq!(smallest(&values), Some(-7));
    assert_eq!(first_of(&values), Some(5));
    assert_eq!(last_of(&values), Some(12));
    let nothing: Vec<Option<i64>> = vec![None, None];
    assert_eq!(largest(&nothing), None);
    assert_eq!(smallest(&nothing), None);
    assert_eq!(first_of(&nothing), None);
    assert_eq!(last_of(&nothing), None);
    assert_eq!(largest(&Vec::new()), None);
}

#[test]
fn the_average_leaves_out_what_stands_still() {
    let speeds = vec![Some(0), Some(100), Some(101), None, Some(5_000), Some(9_000)];
    // 101, 5000 and 9000 count: 14101 / 3, cut off.
    assert_eq!(mean_of_above(&speeds, 100), 4_700);
    assert_eq!(mean_of_above(&vec![Some(50), None], 100), 0);
    assert_eq!(mean_of_above(&Vec::new(), 100), 0);
    assert_eq!(mean_of_above(&vec![Some(i64::MAX), Some(i64::MAX), Some(i64::MAX)], 100), i64::MAX);
}

#[test]
fn lengths_add_up_within_the_range() {
    assert_eq!(total_of(&vec![1_000, 2_500, 0, 7]), 3_507);
    assert_eq!(total_of(&Vec::new()), 0);
    assert_eq!(total_of(&vec![i64::MAX, 1]), i64::MAX);
    assert_eq!(total_of(&vec![i64::MIN, -1]), i64::MIN);
    assert_eq!(longest(&vec![3, 9, 4]), 9);
    assert_eq!(longest(&vec![-3, -9]), 0);
    assert_eq!(longest(&Vec::new()), 0);
}

#[test]
fn the_statistics_of_fresh_points() {
    let mut a = point(0);
    a.battery_percent = Some(90);
    a.battery_temp = Some(21_000);
    a.altitude = Some(300_000);
    let mut b = point(1_000);
    b.latitude = Some(525_200_000);
    b.longitude = Some(134_050_000);
    b.height = Some(20_000);
    b.altitude = Some(25_000);
    b.speed = Some(4_000);
    b.battery_percent = Some(80);
    let mut c = point(2_000);
    c.latitude = Some(525_210_000);
    c.longitude = Some(134_060_000);
    c.height = Some(35_000);
    c.speed = Some(6_000);
    c.battery_percent = Some(70);
    c.battery_temp = Some(30_000);
    let mut d = point(61_000);
    d.speed = Some(50);
    let points = vec![a, b, c, d];
    assert_eq!(
        positions_of_points(&points),
        vec![
            Position { latitude: 525_200_000, longitude: 134_050_000 },
            Position { latitude: 525_210_000, longitude: 134_060_000 },
        ]
    );
    let stats = LogParser::new().calculate_stats(&points, &vec![130_500], &vec![0, 130_500]);
    assert_eq!(stats.duration_ms, 61_000);
    assert_eq!(stats.total_distance, 130_500);
    // The height counts before the altitude.
    assert_eq!(stats.max_altitude, 300_000);
    assert_eq!(stats.max_speed, 6_000);
    assert_eq!(stats.avg_speed, 5_000);
    assert_eq!(stats.min_battery, 70);
    assert_eq!(stats.home_location, Some((134_050_000, 525_200_000)));
    assert_eq!(stats.max_distance_from_home, 130_500);
    assert_eq!(stats.start_battery_percent, Some(90));
    assert_eq!(stats.end_battery_percent, Some(70));
    assert_eq!(stats.start_battery_temp, Some(21_000));
}

#[test]
fn the_statistics_of_nothing() {
    let stats = LogParser::new().calculate_stats(&Vec::new(), &Vec::new(), &vec![5]);
    assert_eq!(stats.duration_ms, 0);
    assert_eq!(stats.total_distance, 0);
    assert_eq!(stats.max_altitude, 0);
    assert_eq!(stats.max_speed, 0);
    assert_eq!(stats.avg_speed, 0);
    assert_eq!(stats.min_battery, 0);
    assert_eq!(stats.home_location, None);
    // Without a home there is no distance from home.
    assert_eq!(stats.max_distance_from_home, 0);
    assert_eq!(stats.start_battery_percent, None);
    assert_eq!(stats.end_battery_percent, None);
    assert_eq!(stats.start_battery_temp, None);
}

#[test]
fn a_flight_below_ground_keeps_its_negative_maximum() {
    let mut a = point(0);
    a.height = Some(-5_000);
    let mut b = point(10);
    b.height = Some(-2_000);
    let stats = LogParser::new().calculate_stats(&vec![a, b], &Vec::new(), &Vec::new());
    assert_eq!(stats.max_altitude, -2_000);
}

#[test]
fn the_statistics_of_stored_records() {
    let mut a = record(5_000);
    a.latitude = Some(500);
    a.longitude = Some(-500);
    a.battery_percent = Some(60);
    let mut b = record(6_000);
    b.latitude = Some(525_200_000);
    b.longitude = Some(134_050_000);
    b.height = Some(-3_000);
    b.speed = Some(7_000);
    b.battery_percent = Some(55);
    b.battery_temp = Some(28_000);
    let mut c = record(65_000);
    c.latitude = Some(525_300_000);
    c.longitude = Some(134_050_000);
    c.speed = Some(9_000);
    let records = vec![a, b, c];
    assert_eq!(positions_of_records(&records).len(), 3);
    assert_eq!(
        route_of_records(&records),
        vec![
            Position { latitude: 525_200_000, longitude: 134_050_000 },
            Position { latitude: 525_300_000, longitude: 134_050_000 },
        ]
    );
    let stats = calculate_stats_from_records(&records, &vec![1_112_000], &vec![5_900_000_000, 0, 1_112_000]);
    assert_eq!(stats.duration_ms, 60_000);
    assert_eq!(stats.total_distance, 1_112_000);
    // Stored maxima do not go below zero.
    assert_eq!(stats.max_altitude, 0);
    assert_eq!(stats.max_speed, 9_000);
    assert_eq!(stats.avg_speed, 8_000);
    assert_eq!(stats.min_battery, 55);
    // The first position is at the origin and is not the home.
    assert_eq!(stats.home_location, Some((134_050_000, 525_200_000)));
    assert_eq!(stats.max_distance_from_home, 5_900_000_000);
    assert_eq!(stats.start_battery_percent, Some(60));
    assert_eq!(stats.end_battery_percent, Some(55));
    assert_eq!(stats.start_battery_temp, Some(28_000));
}

fn shot(t: i64, photo: Option<bool>, video: Option<bool>) -> TelemetryPoint {
    let mut p = point(t);
    p.is_photo = photo;
    p.is_video = video;
    p
}

#[test]
fn a_shot_is_counted_where_the_camera_sets_in() {
    let on = Some(true);
    let off = Some(false);
    let points = vec![
        shot(0, on, None),
        shot(1, on, off),
        shot(2, None, on),
        shot(3, on, on),
        shot(4, off, None),
        shot(5, on, on),
        shot(6, on, on),
    ];
    assert_eq!(count_shots(&points, Camera::Photo), 3);
    assert_eq!(count_shots(&points, Camera::Video), 2);
    assert_eq!(count_shots(&Vec::new(), Camera::Photo), 0);
    assert_eq!(count_shots(&vec![shot(0, off, on)], Camera::Photo), 0);
    assert_eq!(count_shots(&vec![shot(0, off, on)], Camera::Video), 1);
    assert!(check_busy(&points[0], Camera::Photo));
    assert!(!check_busy(&points[0], Camera::Video));
    assert!(!check_busy(&points[4], Camera::Photo));
}
