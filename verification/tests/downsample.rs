use drone_logbook::database::Database;
use drone_logbook::downsample::{
    bucket_record, compute_bucket_size, downsample, floor_div, mean_over, serve, Measure,
};
use drone_logbook::models::{TelemetryPoint, TelemetryRecord};

fn record(t: i64) -> TelemetryRecord {
    TelemetryRecord {
        timestamp_ms: t,
        latitude: None,
        longitude: None,
        altitude: None,
        height: None,
        vps_height: None,
        speed: None,
        velocity_x: None,
        velocity_y: None,
        velocity_z: None,
        battery_percent: None,
        battery_voltage: None,
        battery_temp: None,
        cell_voltages: None,
        pitch: None,
        roll: None,
        yaw: None,
        satellites: None,
        flight_mode: None,
        rc_signal: None,
        rc_uplink: None,
        rc_downlink: None,
        rc_aileron: None,
        rc_elevator: None,
        rc_throttle: None,
        rc_rudder: None,
        is_photo: None,
        is_video: None,
    }
}

fn full(t: i64, height: i64, charge: i32, mode: &str, photo: bool) -> TelemetryRecord {
    let mut r = record(t);
    r.latitude = Some(525_200_000 + t);
    r.longitude = Some(134_050_000 - t);
    r.height = Some(height);
    r.battery_percent = Some(charge);
    r.satellites = Some(charge / 10);
    r.flight_mode = Some(mode.to_string());
    r.cell_voltages = Some(vec![3_800 + t, 3_810 + t]);
    r.is_photo = Some(photo);
    r
}

#[test]
fn up_to_the_limit_the_records_are_served_as_they_are() {
    let records: Vec<TelemetryRecord> = (0..5_000).map(|i| full(i * 10, i, 50, "GPS", false)).collect();
    assert_eq!(serve(records.clone(), None), records);
    assert_eq!(serve(records.clone(), Some(5_000)), records);
    let few: Vec<TelemetryRecord> = (0..3).map(|i| full(i, i, 50, "GPS", false)).collect();
    assert_eq!(serve(few.clone(), Some(3)), few);
    assert_eq!(serve(Vec::new(), Some(1)), Vec::<TelemetryRecord>::new());
}

#[test]
fn beyond_the_limit_there_is_one_record_for_each_bucket() {
    // 5001 records, one every tenth of a second: 500 seconds.
    let records: Vec<TelemetryRecord> = (0..5_001).map(|i| full(i * 100, i, 50, "GPS", i == 4_321)).collect();
    let served = serve(records.clone(), None);
    // The bucket is a second long: 500_000 / 5000 = 100 is below the least.
    assert_eq!(served.len(), 501);
    assert!(served.len() <= 500_000 / 1_000 + 1);
    for (k, r) in served.iter().enumerate() {
        assert_eq!(r.timestamp_ms, k as i64 * 1_000);
    }
    // Records 0 to 9 make the first bucket.
    assert_eq!(served[0].height, Some(4));
    assert_eq!(served[0].latitude, Some(525_200_000 + 450));
    assert_eq!(served[0].longitude, Some(134_050_000 - 450));
    assert_eq!(served[0].cell_voltages, Some(vec![3_800, 3_810]));
    assert_eq!(served[500].height, Some(5_000));
    // The photo of record 4321 shows in its bucket and in no other.
    for (k, r) in served.iter().enumerate() {
        assert_eq!(r.is_photo, Some(k == 432), "bucket {}", k);
    }
}

#[test]
fn the_number_of_records_decides() {
    let records: Vec<TelemetryRecord> = (0..10).map(|i| full(i * 1_000, i, 50, "GPS", false)).collect();
    assert_eq!(serve(records.clone(), Some(10)), records);
    assert_eq!(serve(records.clone(), Some(20)), records);
    // Ten records and a limit of four: 9000 / 4 = 2250 milliseconds to
    // the bucket.
    let served = serve(records.clone(), Some(4));
    let times: Vec<i64> = served.iter().map(|r| r.timestamp_ms).collect();
    assert_eq!(times, vec![0, 2_250, 4_500, 6_750, 9_000]);
    let served = serve(records.clone(), Some(9));
    assert_eq!(served.len(), 10);
    assert_eq!(served[3].timestamp_ms, 3_000);
}

#[test]
fn a_bucket_is_served_as_means_first_values_and_any_true() {
    let mut a = full(1_000, 10_000, 80, "GPS", false);
    a.speed = Some(3_000);
    a.is_video = None;
    let mut b = full(1_400, 20_001, 70, "Sport", true);
    b.speed = None;
    b.is_video = Some(false);
    let mut c = full(1_999, -6_000, 60, "ATTI", false);
    c.speed = Some(4_001);
    c.is_video = None;
    let records = vec![a, b, c];
    let r = bucket_record(&records, 0, 3, 1_000);
    assert_eq!(r.timestamp_ms, 1_000);
    assert_eq!(r.height, Some(8_000));
    // The mean of 3000 and 4001, cut off.
    assert_eq!(r.speed, Some(3_500));
    assert_eq!(r.altitude, None);
    assert_eq!(r.battery_percent, Some(80));
    assert_eq!(r.satellites, Some(8));
    assert_eq!(r.flight_mode, Some("GPS".to_string()));
    assert_eq!(r.cell_voltages, Some(vec![4_800, 4_810]));
    assert_eq!(r.is_photo, Some(true));
    assert_eq!(r.is_video, Some(false));
    assert_eq!(mean_over(&records, Measure::Height, 1, 3), Some(7_000));
    assert_eq!(mean_over(&records, Measure::Height, 2, 3), Some(-6_000));
    assert_eq!(mean_over(&records, Measure::Height, 1, 1), None);
    assert_eq!(mean_over(&records, Measure::Pitch, 0, 3), None);
}

#[test]
fn means_of_negative_values_are_cut_off_toward_zero() {
    let mut a = record(0);
    a.pitch = Some(-1);
    let mut b = record(1);
    b.pitch = Some(-2);
    assert_eq!(mean_over(&vec![a, b], Measure::Pitch, 0, 2), Some(-1));
}

#[test]
fn buckets_that_are_empty_give_no_record() {
    let records: Vec<TelemetryRecord> = [0, 10, 5_000, 5_999, 60_000].iter().map(|t| record(*t)).collect();
    let served = downsample(&records, 1_000);
    let times: Vec<i64> = served.iter().map(|r| r.timestamp_ms).collect();
    assert_eq!(times, vec![0, 5_000, 60_000]);
    assert_eq!(downsample(&Vec::new(), 1_000), Vec::<TelemetryRecord>::new());
}

#[test]
fn the_bucket_is_the_duration_over_the_limit_and_a_second_at_the_least() {
    let records: Vec<TelemetryRecord> = [500, 10_000_500].iter().map(|t| record(*t)).collect();
    assert_eq!(compute_bucket_size(&records, 5_000), 2_000);
    assert_eq!(compute_bucket_size(&records, 10_000), 1_000);
    assert_eq!(compute_bucket_size(&records, 20_000), 1_000);
    assert_eq!(compute_bucket_size(&records, 3), 3_333_333);
    let wide: Vec<TelemetryRecord> = [i64::MIN, i64::MAX].iter().map(|t| record(*t)).collect();
    assert_eq!(compute_bucket_size(&wide, 1), i64::MAX);
}

#[test]
fn times_before_zero_fall_in_the_buckets_below() {
    assert_eq!(floor_div(0, 1_000), 0);
    assert_eq!(floor_div(999, 1_000), 0);
    assert_eq!(floor_div(1_000, 1_000), 1);
    assert_eq!(floor_div(-1, 1_000), -1);
    assert_eq!(floor_div(-1_000, 1_000), -1);
    assert_eq!(floor_div(-1_001, 1_000), -2);
    assert_eq!(floor_div(i64::MIN, 1), i64::MIN);
    assert_eq!(floor_div(i64::MIN, i64::MAX), -2);
    let records: Vec<TelemetryRecord> = [-1_500, -1, 0, 1].iter().map(|t| record(*t)).collect();
    let times: Vec<i64> = downsample(&records, 1_000).iter().map(|r| r.timestamp_ms).collect();
    assert_eq!(times, vec![-2_000, -1_000, 0]);
}

#[test]
fn the_store_serves_a_flight_in_order_of_time() {
    let mut db = Database::new();
    let mut p = TelemetryPoint::new(300);
    p.height = Some(1);
    p.gimbal_pitch = Some(9);
    p.flight_mode = Some("GPS".to_string());
    p.cell_voltages = Some(vec![1, 2]);
    let q = TelemetryPoint::new(100);
    assert_eq!(db.bulk_insert_telemetry(7, vec![p, q]), 2);
    assert_eq!(db.bulk_insert_telemetry(8, vec![TelemetryPoint::new(200)]), 1);
    let served = db.get_flight_telemetry(7, None, None);
    assert_eq!(served.len(), 2);
    assert_eq!(served[0], record(100));
    let mut expected = record(300);
    expected.height = Some(1);
    expected.flight_mode = Some("GPS".to_string());
    expected.cell_voltages = Some(vec![1, 2]);
    assert_eq!(served[1], expected);
    assert_eq!(db.get_flight_telemetry(9, None, None), Vec::<TelemetryRecord>::new());
    let thinned = db.get_flight_telemetry(7, Some(1), None);
    assert_eq!(thinned.len(), 1);
    assert_eq!(thinned[0].timestamp_ms, 0);
    assert_eq!(thinned[0].height, Some(1));
}

#[test]
fn the_stored_points_decide_and_not_what_the_caller_knows() {
    let mut db = drone_logbook::database::Database::new();
    db.bulk_insert_telemetry(1, vec![
        drone_logbook::models::TelemetryPoint::new(1),
        drone_logbook::models::TelemetryPoint::new(0),
    ]);
    // Two points, a limit of five and a stale count of ten: both points
    // are served as they are.
    let served = db.get_flight_telemetry(1, Some(5), Some(10));
    let times: Vec<i64> = served.iter().map(|r| r.timestamp_ms).collect();
    assert_eq!(times, vec![0, 1]);
    assert_eq!(db.get_flight_telemetry(1, Some(5), Some(0)), served);
    assert_eq!(db.get_flight_telemetry(1, Some(5), None), served);
    // A count below the limit does not keep more than the limit as they are.
    assert_eq!(db.get_flight_telemetry(1, Some(1), Some(1)).len(), 1);
}
