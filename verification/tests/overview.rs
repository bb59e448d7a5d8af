use drone_logbook::database::{Database, StoredPoint};
use drone_logbook::frames::add_clamped;
use drone_logbook::models::{DroneUsage, FlightDateCount, FlightMetadata, TelemetryPoint};
use drone_logbook::overview::{
    battery_health_points, battery_usage, check_real_home, compute_drain, count_by_day,
    drone_usage, find_charge_span, find_reach, flights_by_date, greatest_height, pick_later,
    sum_over, top_distance_flights, top_flights, BatteryHealthPoint, BatteryUsage, DayCount,
    FlightReach, Summed, TopDistanceFlight, TopFlight, MICROS_PER_DAY,
};
use drone_logbook::ranking::{rank_all, take_leaders};
use drone_logbook::text::text_precedes;

const START: i64 = 1_700_000_000_000_000;
const HOUR: i64 = 3_600_000_000;

fn flight(id: i64) -> FlightMetadata {
    FlightMetadata {
        id,
        file_name: format!("{}.txt", id),
        display_name: format!("flight {}", id),
        file_hash: None,
        drone_model: None,
        drone_serial: None,
        aircraft_name: None,
        battery_serial: None,
        start_time: None,
        end_time: None,
        duration_ms: None,
        total_distance: None,
        max_altitude: None,
        max_speed: None,
        home_lat: None,
        home_lon: None,
        point_count: 0,
        photo_count: 0,
        video_count: 0,
    }
}

fn text(s: &str) -> Option<String> {
    Some(s.to_string())
}

fn fleet() -> Vec<FlightMetadata> {
    let mut f1 = flight(1);
    f1.battery_serial = text("B1");
    f1.drone_serial = text("S1");
    f1.drone_model = text("Mavic");
    f1.start_time = Some(START);
    f1.duration_ms = Some(600_000);
    f1.total_distance = Some(1_000_000);
    f1.max_altitude = Some(50_000);
    f1.point_count = 10;
    f1.photo_count = 4;
    f1.video_count = 1;
    f1.home_lat = Some(480_000_000);
    f1.home_lon = Some(110_000_000);
    let mut f2 = flight(2);
    f2.battery_serial = text("B2");
    f2.drone_serial = text("S1");
    f2.drone_model = text("Air");
    f2.aircraft_name = text("Bird");
    f2.start_time = Some(START + MICROS_PER_DAY);
    f2.duration_ms = Some(1_200_000);
    f2.total_distance = Some(2_000_000);
    f2.max_altitude = Some(120_000);
    f2.point_count = 20;
    f2.photo_count = 3;
    f2.home_lat = Some(0);
    f2.home_lon = Some(0);
    let mut f3 = flight(3);
    f3.battery_serial = text("B1");
    f3.start_time = Some(START + HOUR);
    f3.point_count = 5;
    let mut f4 = flight(4);
    f4.battery_serial = text("");
    f4.drone_serial = text("");
    f4.drone_model = text("Mini");
    f4.duration_ms = Some(60_000);
    f4.home_lat = Some(5);
    let mut f5 = flight(5);
    f5.battery_serial = text("B1");
    f5.drone_model = text("Mini");
    f5.start_time = Some(START - 398 * MICROS_PER_DAY);
    f5.duration_ms = Some(1_800_000);
    f5.home_lat = Some(100);
    vec![f1, f2, f3, f4, f5]
}

fn now() -> i64 {
    START + 2 * MICROS_PER_DAY
}

fn charged(flight_id: i64, time: i64, percent: Option<i32>) -> StoredPoint {
    let mut point = TelemetryPoint::new(time);
    point.battery_percent = percent;
    StoredPoint { flight_id, point }
}

fn charges() -> Vec<StoredPoint> {
    vec![
        charged(1, 0, Some(90)),
        charged(5, 0, Some(100)),
        charged(1, 100, Some(80)),
        charged(2, 0, None),
        charged(1, 200, None),
        charged(1, 300, Some(50)),
        charged(3, 0, Some(70)),
        charged(5, 100, Some(40)),
        charged(4, 0, Some(10)),
    ]
}

#[test]
fn sums_pass_over_what_a_flight_does_not_have() {
    let flights = fleet();
    assert_eq!(sum_over(&flights, Summed::Distance), 3_000_000);
    assert_eq!(sum_over(&flights, Summed::Duration), 3_660_000);
    assert_eq!(sum_over(&flights, Summed::Points), 35);
    assert_eq!(sum_over(&flights, Summed::Photos), 7);
    assert_eq!(sum_over(&flights, Summed::Videos), 1);
    assert_eq!(greatest_height(&flights), 120_000);
    assert_eq!(sum_over(&Vec::new(), Summed::Distance), 0);
    assert_eq!(greatest_height(&Vec::new()), 0);
    let mut low = flight(1);
    low.max_altitude = Some(-5_000);
    assert_eq!(greatest_height(&vec![low]), -5_000);
}

#[test]
fn a_sum_is_held_within_the_range() {
    let mut a = flight(1);
    a.total_distance = Some(i64::MAX);
    let mut b = flight(2);
    b.total_distance = Some(i64::MAX);
    assert_eq!(sum_over(&vec![a, b], Summed::Distance), i64::MAX);
    assert_eq!(add_clamped(i64::MAX, 1), i64::MAX);
    assert_eq!(add_clamped(i64::MIN, -1), i64::MIN);
    assert_eq!(add_clamped(40, 2), 42);
}

#[test]
fn batteries_are_counted_and_ranked() {
    assert_eq!(
        battery_usage(&fleet()),
        vec![
            BatteryUsage { battery_serial: "B1".to_string(), flight_count: 3, total_duration_ms: 2_400_000 },
            BatteryUsage { battery_serial: "B2".to_string(), flight_count: 1, total_duration_ms: 1_200_000 },
        ]
    );
    assert_eq!(battery_usage(&Vec::new()), Vec::new());
}

#[test]
fn aircraft_are_counted_by_serial_number_or_by_model() {
    assert_eq!(
        drone_usage(&fleet()),
        vec![
            DroneUsage {
                drone_model: "Mavic".to_string(),
                drone_serial: text("S1"),
                aircraft_name: text("Bird"),
                flight_count: 2,
            },
            DroneUsage {
                drone_model: "Mini".to_string(),
                drone_serial: None,
                aircraft_name: None,
                flight_count: 2,
            },
            DroneUsage {
                drone_model: "Unknown".to_string(),
                drone_serial: None,
                aircraft_name: None,
                flight_count: 1,
            },
        ]
    );
}

#[test]
fn the_later_of_two_names() {
    assert_eq!(pick_later(&text("Air"), &text("Mavic")), text("Mavic"));
    assert_eq!(pick_later(&text("Mavic"), &text("Air")), text("Mavic"));
    assert_eq!(pick_later(&None, &text("Air")), text("Air"));
    assert_eq!(pick_later(&text("Air"), &None), text("Air"));
    assert_eq!(pick_later(&None, &None), None);
}

#[test]
fn texts_are_ordered_by_their_characters() {
    assert!(text_precedes("Air", "Mavic"));
    assert!(!text_precedes("Mavic", "Air"));
    assert!(text_precedes("Mini", "Mini 2"));
    assert!(!text_precedes("Mini 2", "Mini"));
    assert!(!text_precedes("Mini", "Mini"));
    assert!(text_precedes("", "a"));
    assert!(!text_precedes("", ""));
    assert!(text_precedes("Z", "a"));
    assert!(text_precedes("z", "é"));
}

#[test]
fn flights_are_counted_by_the_day_of_their_start() {
    let flights = fleet();
    let day = START / MICROS_PER_DAY;
    assert_eq!(
        count_by_day(&flights, now()),
        vec![
            DayCount { day, first_start: START, count: 2 },
            DayCount { day: day + 1, first_start: START + MICROS_PER_DAY, count: 1 },
        ]
    );
    assert_eq!(
        flights_by_date(&flights, now()),
        vec![
            FlightDateCount { date: "2023-11-14".to_string(), count: 2 },
            FlightDateCount { date: "2023-11-15".to_string(), count: 1 },
        ]
    );
}

#[test]
fn the_days_counted_reach_a_year_back() {
    let today = 20_000 * MICROS_PER_DAY + 5;
    let mut inside = flight(1);
    inside.start_time = Some((20_000 - 365) * MICROS_PER_DAY);
    let mut outside = flight(2);
    outside.start_time = Some((20_000 - 365) * MICROS_PER_DAY - 1);
    let mut ahead = flight(3);
    ahead.start_time = Some(20_010 * MICROS_PER_DAY);
    let mut before_epoch = flight(4);
    before_epoch.start_time = Some(-1);
    let flights = vec![ahead, inside, outside, before_epoch];
    assert_eq!(
        count_by_day(&flights, today),
        vec![
            DayCount { day: 20_000 - 365, first_start: (20_000 - 365) * MICROS_PER_DAY, count: 1 },
            DayCount { day: 20_010, first_start: 20_010 * MICROS_PER_DAY, count: 1 },
        ]
    );
    // The last microsecond before the epoch lies in the day before it.
    let early = 100 * MICROS_PER_DAY;
    assert_eq!(
        flights_by_date(&flights[3..].to_vec(), early),
        vec![FlightDateCount { date: "1969-12-31".to_string(), count: 1 }]
    );
}

#[test]
fn the_longest_flights_are_three() {
    assert_eq!(
        top_flights(&fleet()),
        vec![
            TopFlight {
                id: 5,
                display_name: "flight 5".to_string(),
                duration_ms: 1_800_000,
                start_time: Some(START - 398 * MICROS_PER_DAY),
            },
            TopFlight {
                id: 2,
                display_name: "flight 2".to_string(),
                duration_ms: 1_200_000,
                start_time: Some(START + MICROS_PER_DAY),
            },
            TopFlight { id: 1, display_name: "flight 1".to_string(), duration_ms: 600_000, start_time: Some(START) },
        ]
    );
    assert_eq!(top_flights(&vec![flight(1)]), Vec::new());
}

#[test]
fn flights_are_ranked_by_the_distance_from_home() {
    let reach = vec![
        FlightReach { flight_id: 1, distance: 5_000 },
        FlightReach { flight_id: 5, distance: 7_000 },
        FlightReach { flight_id: 1, distance: 9_999 },
        FlightReach { flight_id: 2, distance: 100_000 },
    ];
    assert_eq!(find_reach(&reach, 1), 5_000);
    assert_eq!(find_reach(&reach, 3), 0);
    let flights = fleet();
    let home: Vec<bool> = flights.iter().map(check_real_home).collect();
    assert_eq!(home, vec![true, false, true, false, true]);
    assert_eq!(
        top_distance_flights(&flights, &reach),
        vec![
            TopDistanceFlight {
                id: 5,
                display_name: "flight 5".to_string(),
                max_distance_from_home: 7_000,
                start_time: Some(START - 398 * MICROS_PER_DAY),
            },
            TopDistanceFlight {
                id: 1,
                display_name: "flight 1".to_string(),
                max_distance_from_home: 5_000,
                start_time: Some(START),
            },
            TopDistanceFlight {
                id: 3,
                display_name: "flight 3".to_string(),
                max_distance_from_home: 0,
                start_time: Some(START + HOUR),
            },
        ]
    );
}

#[test]
fn a_home_at_the_origin_is_no_home() {
    let mut f = flight(1);
    f.home_lat = Some(9);
    f.home_lon = Some(-9);
    assert!(!check_real_home(&f));
    f.home_lon = Some(10);
    assert!(check_real_home(&f));
    f.home_lat = Some(-10);
    f.home_lon = None;
    assert!(check_real_home(&f));
    f.home_lat = None;
    f.home_lon = Some(0);
    assert!(check_real_home(&f));
}

#[test]
fn the_drain_of_each_battery_by_flight() {
    let telemetry = charges();
    assert_eq!(find_charge_span(&telemetry, 1), Some((50, 90)));
    assert_eq!(find_charge_span(&telemetry, 2), None);
    assert_eq!(find_charge_span(&telemetry, 9), None);
    let drain = |flight_id: i64, start: i64, duration_ms: i64, delta: i64, rate: i64| BatteryHealthPoint {
        flight_id,
        battery_serial: "B1".to_string(),
        start_time: Some(start),
        duration_ms,
        delta_percent: delta,
        rate_per_min: rate,
    };
    assert_eq!(
        battery_health_points(&fleet(), &telemetry),
        vec![
            drain(5, START - 398 * MICROS_PER_DAY, 1_800_000, 60, 2_000),
            drain(1, START, 600_000, 40, 4_000),
            drain(3, START + HOUR, 0, 0, 0),
        ]
    );
}

#[test]
fn a_drain_is_cut_off_toward_zero() {
    let mut f = flight(1);
    f.duration_ms = Some(7 * 60_000);
    let point = compute_drain(&f, "B".to_string(), 0, 100);
    assert_eq!(point.delta_percent, 100);
    assert_eq!(point.rate_per_min, 14_285);
    f.duration_ms = Some(-5);
    let point = compute_drain(&f, "B".to_string(), 10, 20);
    assert_eq!((point.duration_ms, point.rate_per_min), (0, 0));
    f.duration_ms = Some(1);
    let point = compute_drain(&f, "B".to_string(), i32::MIN, i32::MAX);
    assert_eq!(point.delta_percent, 4_294_967_295);
    assert_eq!(point.rate_per_min, 4_294_967_295 * 60_000_000);
}

#[test]
fn all_figures_of_a_store() {
    let mut db = Database::new();
    db.flights = fleet();
    db.telemetry = charges();
    let reach = vec![FlightReach { flight_id: 1, distance: 5_000 }];
    let stats = db.get_overview_stats(now(), &reach);
    assert_eq!(stats.total_flights, 5);
    assert_eq!(stats.total_distance, 3_000_000);
    assert_eq!(stats.total_duration_ms, 3_660_000);
    assert_eq!(stats.total_points, 35);
    assert_eq!((stats.total_photos, stats.total_videos), (7, 1));
    assert_eq!(stats.max_altitude, 120_000);
    assert_eq!(stats.max_distance_from_home, 5_000);
    assert_eq!(stats.batteries_used, battery_usage(&db.flights));
    assert_eq!(stats.drones_used, drone_usage(&db.flights));
    assert_eq!(stats.flights_by_date, flights_by_date(&db.flights, now()));
    assert_eq!(stats.top_flights, top_flights(&db.flights));
    assert_eq!(stats.top_distance_flights, top_distance_flights(&db.flights, &reach));
    assert_eq!(stats.battery_health_points, battery_health_points(&db.flights, &db.telemetry));
    let empty = Database::new().get_overview_stats(now(), &Vec::new());
    assert_eq!(empty.total_flights, 0);
    assert_eq!(empty.max_distance_from_home, 0);
    assert!(empty.top_flights.is_empty() && empty.drones_used.is_empty());
}

#[test]
fn a_ranking_keeps_the_order_of_equals() {
    let row = |id: i64, duration_ms: i64| TopFlight {
        id,
        display_name: String::new(),
        duration_ms,
        start_time: None,
    };
    let rows = vec![row(1, 5), row(2, 9), row(3, 5), row(4, 9), row(5, 1)];
    let ids = |rows: Vec<TopFlight>| rows.iter().map(|r| r.id).collect::<Vec<i64>>();
    assert_eq!(ids(rank_all(rows.clone())), vec![2, 4, 1, 3, 5]);
    assert_eq!(ids(take_leaders(rows.clone(), 3)), vec![2, 4, 1]);
    assert_eq!(ids(take_leaders(rows.clone(), 0)), Vec::<i64>::new());
    assert_eq!(ids(take_leaders(rows, 9)), vec![2, 4, 1, 3, 5]);
}
