use drone_logbook::frames::{
    check_altitude, classify_gps, compute_fallback_interval, compute_ground_speed, extract_points,
    isqrt, normalize_stick, validate_frames, GpsFix, RawFrame, Reading,
};
use drone_logbook::ordering::{check_ordered, order_by_time};
use drone_logbook::models::TelemetryPoint;

fn frame(lat: i64, lon: i64) -> RawFrame {
    RawFrame {
        fly_time_ms: None,
        latitude: Reading::Finite(lat),
        longitude: Reading::Finite(lon),
        altitude: Reading::Finite(12_500),
        height: Reading::Finite(10_000),
        x_speed: Reading::Finite(3_000),
        y_speed: Reading::Finite(4_000),
        z_speed: Reading::Finite(-500),
        vps_height: Some(9_800),
        pitch: Some(1_500),
        roll: Some(-2_500),
        yaw: Some(90_000),
        gps_num: 14,
        gps_level: 5,
        flight_mode: Some("GPS".to_string()),
        gimbal_pitch: Some(-45_000),
        gimbal_roll: Some(0),
        gimbal_yaw: Some(90_000),
        charge_level: 87,
        voltage: Some(15_200),
        current: Some(-4_300),
        temperature: Some(31_500),
        uplink_signal: Some(90),
        downlink_signal: None,
        aileron: 1024,
        elevator: 2048,
        throttle: 0,
        rudder: 1536,
        is_photo: false,
        is_video: true,
    }
}

const BERLIN_LAT: i64 = 525_200_000;
const BERLIN_LON: i64 = 134_050_000;

#[test]
fn a_position_within_a_millionth_of_a_degree_of_zero_is_no_lock() {
    // 0.0000001 and -0.0000002 degrees.
    assert_eq!(classify_gps(1, -2), GpsFix::NoLock);
    assert_eq!(classify_gps(0, 0), GpsFix::NoLock);
    assert_eq!(classify_gps(9, -9), GpsFix::NoLock);
    assert_eq!(classify_gps(10, 0), GpsFix::Valid);
    assert_eq!(classify_gps(0, -10), GpsFix::Valid);
}

#[test]
fn a_latitude_of_ninety_one_degrees_is_out_of_range() {
    assert_eq!(classify_gps(910_000_000, 0), GpsFix::OutOfRange);
    assert_eq!(classify_gps(900_000_000, 1_800_000_000), GpsFix::Valid);
    assert_eq!(classify_gps(-900_000_001, 0), GpsFix::OutOfRange);
    assert_eq!(classify_gps(0, 1_800_000_001), GpsFix::OutOfRange);
    assert_eq!(classify_gps(i64::MIN, i64::MAX), GpsFix::OutOfRange);
}

#[test]
fn no_lock_and_out_of_range_are_counted_apart_and_both_leave_no_position() {
    let frames = vec![frame(1, -2), frame(910_000_000, BERLIN_LON), frame(BERLIN_LAT, BERLIN_LON)];
    let v = validate_frames(&frames, 100);
    assert_eq!(v.points.len(), 3);
    assert_eq!(v.skipped_no_gps, 1);
    assert_eq!(v.skipped_out_of_range, 1);
    assert_eq!(v.skipped_corrupt, 0);
    assert_eq!(v.points[0].latitude, None);
    assert_eq!(v.points[0].longitude, None);
    assert_eq!(v.points[0].speed, None);
    assert_eq!(v.points[0].velocity_x, None);
    assert_eq!(v.points[1].latitude, None);
    assert_eq!(v.points[1].longitude, None);
    assert_eq!(v.points[2].latitude, Some(BERLIN_LAT));
    assert_eq!(v.points[2].longitude, Some(BERLIN_LON));
    // What does not hang on the position stays.
    assert_eq!(v.points[0].altitude, Some(12_500));
    assert_eq!(v.points[0].battery_percent, Some(87));
}

#[test]
fn a_frame_becomes_a_point_field_by_field() {
    let frames = vec![frame(BERLIN_LAT, BERLIN_LON)];
    let v = validate_frames(&frames, 100);
    let p = &v.points[0];
    let mut expected = TelemetryPoint::new(0);
    expected.latitude = Some(BERLIN_LAT);
    expected.longitude = Some(BERLIN_LON);
    expected.altitude = Some(12_500);
    expected.height = Some(10_000);
    expected.vps_height = Some(9_800);
    expected.speed = Some(5_000);
    expected.velocity_x = Some(3_000);
    expected.velocity_y = Some(4_000);
    expected.velocity_z = Some(-500);
    expected.pitch = Some(1_500);
    expected.roll = Some(-2_500);
    expected.yaw = Some(90_000);
    expected.gimbal_pitch = Some(-45_000);
    expected.gimbal_roll = Some(0);
    expected.gimbal_yaw = Some(90_000);
    expected.battery_percent = Some(87);
    expected.battery_voltage = Some(15_200);
    expected.battery_current = Some(-4_300);
    expected.battery_temp = Some(31_500);
    expected.flight_mode = Some("GPS".to_string());
    expected.gps_signal = Some(5);
    expected.satellites = Some(14);
    expected.rc_signal = Some(90);
    expected.rc_uplink = Some(90);
    expected.rc_downlink = None;
    expected.rc_aileron = Some(0);
    expected.rc_elevator = Some(100_000);
    expected.rc_throttle = Some(-100_000);
    expected.rc_rudder = Some(50_000);
    expected.is_photo = Some(false);
    expected.is_video = Some(true);
    assert_eq!(*p, expected);
}

#[test]
fn the_downlink_is_the_signal_where_it_is_reported() {
    let mut f = frame(BERLIN_LAT, BERLIN_LON);
    f.downlink_signal = Some(70);
    let v = validate_frames(&vec![f], 100);
    assert_eq!(v.points[0].rc_signal, Some(70));
    assert_eq!(v.points[0].rc_uplink, Some(90));
    assert_eq!(v.points[0].rc_downlink, Some(70));
}

#[test]
fn twelve_thousand_frames_with_eleven_corrupt_give_11989_points() {
    let mut frames = Vec::new();
    for i in 0..12_000usize {
        let mut f = frame(BERLIN_LAT + i as i64, BERLIN_LON);
        if (500..=510).contains(&i) {
            f.latitude = Reading::NotFinite;
        }
        frames.push(f);
    }
    // Twenty minutes declared: a tenth of a second for each frame.
    let v = extract_points(&frames, 1_200_000);
    assert_eq!(v.points.len(), 11_989);
    assert_eq!(v.skipped_corrupt, 11);
    for p in &v.points {
        assert!(p.timestamp_ms < 50_000 || p.timestamp_ms > 51_000);
    }
    // The frames on both sides of the gap keep their times.
    assert_eq!(v.points[499].timestamp_ms, 49_900);
    assert_eq!(v.points[500].timestamp_ms, 51_100);
    assert_eq!(v.points[11_988].timestamp_ms, 1_199_900);
    assert!(check_ordered(&v.points));
}

#[test]
fn a_number_that_is_not_finite_in_any_one_field_drops_that_frame_alone() {
    for field in 0..7 {
        let mut frames = vec![
            frame(BERLIN_LAT, BERLIN_LON),
            frame(BERLIN_LAT + 1, BERLIN_LON),
            frame(BERLIN_LAT + 2, BERLIN_LON),
        ];
        let clean = extract_points(&frames, 0).points;
        let bad = &mut frames[1];
        match field {
            0 => bad.latitude = Reading::NotFinite,
            1 => bad.longitude = Reading::NotFinite,
            2 => bad.altitude = Reading::NotFinite,
            3 => bad.height = Reading::NotFinite,
            4 => bad.x_speed = Reading::NotFinite,
            5 => bad.y_speed = Reading::NotFinite,
            _ => bad.z_speed = Reading::NotFinite,
        }
        let v = extract_points(&frames, 0);
        assert_eq!(v.skipped_corrupt, 1);
        assert_eq!(v.points, vec![clean[0].clone(), clean[2].clone()]);
        assert_eq!(v.points[1].timestamp_ms, 200);
    }
}

#[test]
fn a_frame_keeps_its_own_time_and_the_others_follow_it() {
    let mut frames = vec![frame(BERLIN_LAT, BERLIN_LON); 4];
    frames[1].fly_time_ms = Some(5_000);
    frames[3].fly_time_ms = Some(0);
    let v = extract_points(&frames, 60_000);
    let times: Vec<i64> = v.points.iter().map(|p| p.timestamp_ms).collect();
    // A frame carries its own time, so the interval is a tenth of a second.
    assert_eq!(times, vec![0, 5_000, 5_100, 5_200]);
}

#[test]
fn the_interval_is_the_declared_duration_over_the_number_of_frames() {
    let frames = vec![frame(BERLIN_LAT, BERLIN_LON); 3];
    assert_eq!(compute_fallback_interval(&frames, 1_000), 333);
    assert_eq!(compute_fallback_interval(&frames, 1_001), 334);
    assert_eq!(compute_fallback_interval(&frames, 500), 167);
    assert_eq!(compute_fallback_interval(&frames, 0), 100);
    assert_eq!(compute_fallback_interval(&frames, -5), 100);
    assert_eq!(compute_fallback_interval(&Vec::new(), 1_000), 100);
    let mut timed = frames.clone();
    timed[2].fly_time_ms = Some(1);
    assert_eq!(compute_fallback_interval(&timed, 1_000), 100);
}

#[test]
fn points_come_out_in_order_of_time() {
    let mut frames = vec![frame(BERLIN_LAT, BERLIN_LON); 4];
    frames[0].fly_time_ms = Some(3_000);
    frames[1].fly_time_ms = Some(1_000);
    frames[2].fly_time_ms = Some(2_000);
    frames[3].fly_time_ms = Some(1_000);
    frames[3].charge_level = 1;
    let v = extract_points(&frames, 0);
    let times: Vec<i64> = v.points.iter().map(|p| p.timestamp_ms).collect();
    assert_eq!(times, vec![1_000, 1_000, 2_000, 3_000]);
    // Of two points of one time the one that came first stays first.
    assert_eq!(v.points[0].battery_percent, Some(87));
    assert_eq!(v.points[1].battery_percent, Some(1));
    let frame_order = validate_frames(&frames, 100).points;
    assert_eq!(order_by_time(frame_order), v.points);
}

#[test]
fn altitudes_of_ten_kilometres_and_more_are_taken_out() {
    assert_eq!(check_altitude(9_999_999), Some(9_999_999));
    assert_eq!(check_altitude(-9_999_999), Some(-9_999_999));
    assert_eq!(check_altitude(10_000_000), None);
    assert_eq!(check_altitude(-10_000_000), None);
    assert_eq!(check_altitude(i64::MIN), None);
    let mut f = frame(BERLIN_LAT, BERLIN_LON);
    f.altitude = Reading::Finite(10_000_000);
    f.height = Reading::Finite(i64::MAX);
    let v = validate_frames(&vec![f, frame(BERLIN_LAT, BERLIN_LON)], 100);
    assert_eq!(v.points[0].altitude, None);
    assert_eq!(v.points[0].height, None);
    assert_eq!(v.rejected_altitude, 1);
    assert_eq!(v.rejected_height, 1);
    assert_eq!(v.points.len(), 2);
}

#[test]
fn ground_speed_is_the_root_of_the_squares_below_a_hundred_metres_per_second() {
    assert_eq!(compute_ground_speed(3_000, 4_000), Some(5_000));
    assert_eq!(compute_ground_speed(-3_000, -4_000), Some(5_000));
    assert_eq!(compute_ground_speed(0, 0), Some(0));
    assert_eq!(compute_ground_speed(1, 1), Some(1));
    assert_eq!(compute_ground_speed(99_999, 0), Some(99_999));
    assert_eq!(compute_ground_speed(100_000, 0), None);
    assert_eq!(compute_ground_speed(60_000, 80_000), None);
    assert_eq!(compute_ground_speed(60_000, 79_999), Some(99_999));
    assert_eq!(compute_ground_speed(i64::MAX, i64::MIN), None);
    let mut f = frame(BERLIN_LAT, BERLIN_LON);
    f.x_speed = Reading::Finite(100_000);
    let v = validate_frames(&vec![f], 100);
    assert_eq!(v.points[0].speed, None);
    assert_eq!(v.points[0].velocity_x, Some(100_000));
    assert_eq!(v.rejected_speed, 1);
}

#[test]
fn whole_roots() {
    for (n, r) in [(0u64, 0u64), (1, 1), (3, 1), (4, 2), (24, 4), (25, 5), (9_999_999_999, 99_999), (u64::MAX, 4_294_967_295)] {
        assert_eq!(isqrt(n), r);
    }
}

#[test]
fn sticks_are_centred_at_1024_and_scaled_to_a_hundred_percent() {
    assert_eq!(normalize_stick(1024), 0);
    assert_eq!(normalize_stick(2048), 100_000);
    assert_eq!(normalize_stick(0), -100_000);
    assert_eq!(normalize_stick(1536), 50_000);
    assert_eq!(normalize_stick(512), -50_000);
    assert_eq!(normalize_stick(1025), 97);
    assert_eq!(normalize_stick(1023), -97);
    assert_eq!(normalize_stick(u16::MAX), 100_000);
}
