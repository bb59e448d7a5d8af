use drone_logbook::models::TelemetryRecord;
use drone_logbook::series::{TelemetryData, TrackPoint};

fn record(t: i64) -> TelemetryRecord {
    TelemetryRecord {
        timestamp_ms: t,
        latitude: None,
        longitude: None,
        altitude: None,
        height: None,
        vps_height: None,
        speed: None,
        velocity_x: None,
        velocity_y: None,
        velocity_z: None,
        battery_percent: None,
        battery_voltage: None,
        battery_temp: None,
        cell_voltages: None,
        pitch: None,
        roll: None,
        yaw: None,
        satellites: None,
        flight_mode: None,
        rc_signal: None,
        rc_uplink: None,
        rc_downlink: None,
        rc_aileron: None,
        rc_elevator: None,
        rc_throttle: None,
        rc_rudder: None,
        is_photo: None,
        is_video: None,
    }
}

fn at(t: i64, lat: i64, lon: i64) -> TelemetryRecord {
    let mut r = record(t);
    r.latitude = Some(lat);
    r.longitude = Some(lon);
    r
}

#[test]
fn records_are_laid_out_as_one_series_for_each_quantity() {
    let mut a = at(5_000, 1, 2);
    a.battery_percent = Some(90);
    a.flight_mode = Some("GPS".to_string());
    a.cell_voltages = Some(vec![3_900, 3_901]);
    a.is_photo = Some(true);
    a.rc_rudder = Some(-100_000);
    let mut b = record(5_250);
    b.speed = Some(7_000);
    b.yaw = Some(-1);
    let data = TelemetryData::from_records(&vec![a, b]);
    assert_eq!(data.time, vec![0, 250]);
    assert_eq!(data.latitude, vec![Some(1), None]);
    assert_eq!(data.longitude, vec![Some(2), None]);
    assert_eq!(data.battery, vec![Some(90), None]);
    assert_eq!(data.flight_mode, vec![Some("GPS".to_string()), None]);
    assert_eq!(data.cell_voltages, vec![Some(vec![3_900, 3_901]), None]);
    assert_eq!(data.is_photo, vec![Some(true), None]);
    assert_eq!(data.is_video, vec![None, None]);
    assert_eq!(data.speed, vec![None, Some(7_000)]);
    assert_eq!(data.yaw, vec![None, Some(-1)]);
    assert_eq!(data.rc_rudder, vec![Some(-100_000), None]);
    assert_eq!(data.altitude.len(), 2);
    let none = TelemetryData::from_records(&Vec::new());
    assert!(none.time.is_empty() && none.latitude.is_empty() && none.flight_mode.is_empty());
}

#[test]
fn the_track_leaves_out_what_has_no_position_or_lies_at_the_origin() {
    let mut a = at(0, 525_200_000, 134_050_000);
    a.height = Some(10_000);
    a.vps_height = Some(9_000);
    a.altitude = Some(8_000);
    let mut b = at(1, 525_200_001, 134_050_001);
    b.vps_height = Some(9_000);
    b.altitude = Some(8_000);
    let mut c = at(2, 525_200_002, 134_050_002);
    c.altitude = Some(8_000);
    let d = at(3, 525_200_003, 134_050_003);
    let origin = at(4, 9, -9);
    let mut half = record(5);
    half.latitude = Some(5);
    let edge = at(6, 10, 0);
    let data = TelemetryData::from_records(&vec![a, b, c, d, origin, half, edge]);
    assert_eq!(
        data.extract_track(2_000),
        vec![
            TrackPoint { longitude: 134_050_000, latitude: 525_200_000, height: 10_000 },
            TrackPoint { longitude: 134_050_001, latitude: 525_200_001, height: 9_000 },
            TrackPoint { longitude: 134_050_002, latitude: 525_200_002, height: 8_000 },
            TrackPoint { longitude: 134_050_003, latitude: 525_200_003, height: 0 },
            TrackPoint { longitude: 0, latitude: 10, height: 0 },
        ]
    );
    assert_eq!(data.extract_track(5).len(), 5);
    // Five points on the track and three asked for: every second point.
    let thinned = data.extract_track(3);
    assert_eq!(thinned.len(), 3);
    assert_eq!(thinned[1].latitude, 525_200_002);
    assert_eq!(thinned[2].latitude, 10);
}

#[test]
fn a_long_track_is_thinned_out_at_even_steps() {
    let records: Vec<TelemetryRecord> = (0..10).map(|i| at(i, 1_000 + i, 2_000)).collect();
    let data = TelemetryData::from_records(&records);
    let lats = |max: usize| -> Vec<i64> { data.extract_track(max).iter().map(|p| p.latitude).collect() };
    assert_eq!(lats(10), (1_000..1_010).collect::<Vec<i64>>());
    // Ten points, four asked for: every third point.
    assert_eq!(lats(4), vec![1_000, 1_003, 1_006, 1_009]);
    assert_eq!(lats(3), vec![1_000, 1_004, 1_008]);
    assert_eq!(lats(1), vec![1_000]);
    assert_eq!(lats(5), vec![1_000, 1_002, 1_004, 1_006, 1_008]);
    // Nine asked for: every second point, no more than nine.
    assert_eq!(lats(9), vec![1_000, 1_002, 1_004, 1_006, 1_008]);
    for max in 1..=12 {
        assert!(lats(max).len() <= max);
        assert_eq!(lats(max)[0], 1_000);
    }
    let none = TelemetryData::from_records(&Vec::new());
    assert_eq!(none.extract_track(0), Vec::<TrackPoint>::new());
}
