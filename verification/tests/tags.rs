use drone_logbook::geo::{continent_from_cc, country_from_cc};
use drone_logbook::models::{FlightMetadata, FlightStats};
use drone_logbook::parser::LogParser;
use drone_logbook::tags::{compute_local_hour, estimate_zone_offset, rule_tag};

fn metadata(start_time: Option<i64>) -> FlightMetadata {
    FlightMetadata {
        id: 1,
        file_name: "a.txt".to_string(),
        display_name: "a".to_string(),
        file_hash: None,
        drone_model: None,
        drone_serial: None,
        aircraft_name: None,
        battery_serial: None,
        start_time,
        end_time: None,
        duration_ms: None,
        total_distance: None,
        max_altitude: None,
        max_speed: None,
        home_lat: None,
        home_lon: None,
        point_count: 0,
        photo_count: 0,
        video_count: 0,
    }
}

/// A flight of ten minutes at noon of which no rule holds.
fn plain_stats() -> FlightStats {
    FlightStats {
        duration_ms: 600_000,
        total_distance: 500_000,
        max_altitude: 50_000,
        max_speed: 10_000,
        avg_speed: 5_000,
        min_battery: 40,
        home_location: Some((134_050_000, 525_200_000)),
        max_distance_from_home: 300_000,
        start_battery_percent: Some(90),
        end_battery_percent: Some(40),
        start_battery_temp: Some(25_000),
    }
}

const HOUR: i64 = 3_600_000_000;

fn strings(list: &[&str]) -> Vec<String> {
    list.iter().map(|s| s.to_string()).collect()
}

#[test]
fn a_long_and_fast_flight_below_the_altitude_mark() {
    let mut stats = plain_stats();
    stats.duration_ms = 1_800_000;
    stats.avg_speed = 9_000;
    stats.max_altitude = 50_000;
    let tags = LogParser::generate_smart_tags(&metadata(None), &stats, "");
    assert_eq!(tags, strings(&["Long Flight", "Aggressive Flying"]));
    assert!(!tags.contains(&"High Altitude".to_string()));
}

#[test]
fn no_rule_holds_of_a_plain_flight() {
    let tags = LogParser::generate_smart_tags(&metadata(Some(12 * HOUR)), &plain_stats(), "");
    assert_eq!(tags, Vec::<String>::new());
}

#[test]
fn each_rule_gives_its_tag_just_beyond_its_mark() {
    let check = |change: &dyn Fn(&mut FlightStats), tag: &str, holds: bool| {
        let mut stats = plain_stats();
        change(&mut stats);
        let tags = LogParser::generate_smart_tags(&metadata(Some(12 * HOUR)), &stats, "");
        assert_eq!(tags.contains(&tag.to_string()), holds, "{}", tag);
    };
    check(&|s| s.max_speed = 15_001, "High Speed", true);
    check(&|s| s.max_speed = 15_000, "High Speed", false);
    check(&|s| s.start_battery_temp = Some(14_999), "Cold Battery", true);
    check(&|s| s.start_battery_temp = Some(15_000), "Cold Battery", false);
    check(&|s| s.start_battery_temp = None, "Cold Battery", false);
    check(&|s| { s.start_battery_percent = Some(100); s.end_battery_percent = Some(24); }, "Heavy Load", true);
    check(&|s| { s.start_battery_percent = Some(100); s.end_battery_percent = Some(25); }, "Heavy Load", false);
    check(&|s| { s.start_battery_percent = Some(100); s.end_battery_percent = Some(24); s.duration_ms = 1_200_000; }, "Heavy Load", false);
    check(&|s| { s.start_battery_percent = None; s.end_battery_percent = Some(0); }, "Heavy Load", false);
    check(&|s| s.end_battery_percent = Some(14), "Low Battery", true);
    check(&|s| s.end_battery_percent = Some(15), "Low Battery", false);
    check(&|s| s.max_altitude = 120_001, "High Altitude", true);
    check(&|s| s.max_altitude = 120_000, "High Altitude", false);
    check(&|s| s.max_distance_from_home = 1_000_001, "Long Distance", true);
    check(&|s| s.max_distance_from_home = 1_000_000, "Long Distance", false);
    check(&|s| s.duration_ms = 1_500_001, "Long Flight", true);
    check(&|s| s.duration_ms = 1_500_000, "Long Flight", false);
    check(&|s| s.duration_ms = 119_999, "Short Flight", true);
    check(&|s| s.duration_ms = 120_000, "Short Flight", false);
    check(&|s| s.duration_ms = 0, "Short Flight", false);
    check(&|s| s.avg_speed = 8_001, "Aggressive Flying", true);
    check(&|s| s.avg_speed = 8_000, "Aggressive Flying", false);
    check(&|s| s.home_location = None, "No GPS", true);
    check(&|_| {}, "No GPS", false);
}

#[test]
fn rules_that_hold_together_give_their_tags_in_the_order_of_the_rules() {
    let stats = FlightStats {
        duration_ms: 60_000,
        total_distance: 0,
        max_altitude: 200_000,
        max_speed: 20_000,
        avg_speed: 10_000,
        min_battery: 5,
        home_location: None,
        max_distance_from_home: 2_000_000,
        start_battery_percent: Some(95),
        end_battery_percent: Some(5),
        start_battery_temp: Some(-3_000),
    };
    let tags = LogParser::generate_smart_tags(&metadata(Some(2 * HOUR)), &stats, "DE");
    assert_eq!(
        tags,
        strings(&[
            "Night Flight",
            "High Speed",
            "Cold Battery",
            "Heavy Load",
            "Low Battery",
            "High Altitude",
            "Long Distance",
            "Short Flight",
            "Aggressive Flying",
            "No GPS",
        ])
    );
}

#[test]
fn night_is_from_seven_in_the_evening_to_six_in_the_morning_at_home() {
    let night = |utc_hour: i64, home: Option<(i64, i64)>| {
        let mut stats = plain_stats();
        stats.home_location = home;
        LogParser::generate_smart_tags(&metadata(Some(utc_hour * HOUR)), &stats, "")
            .contains(&"Night Flight".to_string())
    };
    let greenwich = Some((0, 515_000_000));
    assert!(night(19, greenwich));
    assert!(!night(18, greenwich));
    assert!(night(5, greenwich));
    assert!(!night(6, greenwich));
    assert!(night(0, greenwich));
    // Tokyo lies nine hours ahead: ten in the morning UTC is seven in the evening.
    let tokyo = Some((1_396_917_000, 356_895_000));
    assert!(night(10, tokyo));
    assert!(!night(9, tokyo));
    // New York lies five hours behind: eleven in the morning UTC is six.
    let new_york = Some((-740_060_000, 407_128_000));
    assert!(!night(11, new_york));
    assert!(night(10, new_york));
    // Without a start there is no night.
    let mut stats = plain_stats();
    stats.home_location = greenwich;
    assert!(!LogParser::generate_smart_tags(&metadata(None), &stats, "").contains(&"Night Flight".to_string()));
}

#[test]
fn the_hour_at_home_is_estimated_from_the_longitude() {
    assert_eq!(estimate_zone_offset(0), 0);
    assert_eq!(estimate_zone_offset(74_999_999), 0);
    assert_eq!(estimate_zone_offset(75_000_000), 1);
    assert_eq!(estimate_zone_offset(-75_000_000), -1);
    assert_eq!(estimate_zone_offset(-74_999_999), 0);
    assert_eq!(estimate_zone_offset(1_800_000_000), 12);
    assert_eq!(estimate_zone_offset(-1_800_000_000), -12);
    assert_eq!(compute_local_hour(23 * HOUR + 59 * 60_000_000, Some((150_000_000, 0))), 0);
    assert_eq!(compute_local_hour(0, Some((-150_000_000, 0))), 23);
    assert_eq!(compute_local_hour(-1, None), 23);
    // 2024-03-10T17:30:00Z
    assert_eq!(compute_local_hour(1_710_091_800_000_000, None), 17);
}

#[test]
fn place_names_follow_the_rule_tags() {
    let mut stats = plain_stats();
    stats.max_speed = 16_000;
    let tags = LogParser::generate_smart_tags(&metadata(Some(12 * HOUR)), &stats, "DE");
    assert_eq!(tags, strings(&["High Speed", "Germany", "Europe"]));
    let tags = LogParser::generate_smart_tags(&metadata(Some(12 * HOUR)), &stats, "AQ");
    // The country and the continent of Antarctica have one name: it is given once.
    assert_eq!(tags, strings(&["High Speed", "Antarctica"]));
    stats.home_location = None;
    let tags = LogParser::generate_smart_tags(&metadata(Some(12 * HOUR)), &stats, "DE");
    assert_eq!(tags, strings(&["High Speed", "No GPS"]));
}

#[test]
fn a_home_at_the_origin_has_no_place_name() {
    assert_eq!(LogParser::reverse_geocode(9_999, -9_999, "GH"), Vec::<String>::new());
    assert_eq!(LogParser::reverse_geocode(10_000, 0, "GH"), strings(&["Ghana", "Africa"]));
    assert_eq!(LogParser::reverse_geocode(525_200_000, 134_050_000, "DE"), strings(&["Germany", "Europe"]));
    assert_eq!(LogParser::reverse_geocode(525_200_000, 134_050_000, "ZZ"), Vec::<String>::new());
    assert_eq!(LogParser::reverse_geocode(525_200_000, 134_050_000, ""), Vec::<String>::new());
    assert_eq!(LogParser::reverse_geocode(525_200_000, 134_050_000, "de"), Vec::<String>::new());
}

#[test]
fn countries_and_continents_by_code() {
    assert_eq!(country_from_cc("US"), Some("United States"));
    assert_eq!(continent_from_cc("US"), Some("North America"));
    assert_eq!(country_from_cc("CW"), Some("Curaçao"));
    assert_eq!(country_from_cc("ST"), Some("São Tomé and Príncipe"));
    assert_eq!(country_from_cc("AE"), Some("UAE"));
    assert_eq!(continent_from_cc("RU"), Some("Asia"));
    assert_eq!(continent_from_cc("BR"), Some("South America"));
    assert_eq!(continent_from_cc("NZ"), Some("Oceania"));
    assert_eq!(continent_from_cc("ZA"), Some("Africa"));
    assert_eq!(country_from_cc("TF"), None);
    assert_eq!(continent_from_cc("TF"), None);
    assert_eq!(country_from_cc("USA"), None);
    assert_eq!(country_from_cc("U"), None);
}

#[test]
fn the_filter_is_off_where_nothing_is_enabled() {
    let tags = strings(&["High Speed", "Germany", "Europe", "Whatever"]);
    assert_eq!(LogParser::filter_smart_tags(tags.clone(), &Vec::new()), tags);
}

#[test]
fn the_filter_lets_pass_the_tags_of_the_enabled_rules() {
    let tags = strings(&["Night Flight", "High Speed", "No GPS", "Germany", "Europe", "Litchi"]);
    let filtered = LogParser::filter_smart_tags(tags.clone(), &strings(&["high_speed", "no_gps"]));
    assert_eq!(filtered, strings(&["High Speed", "No GPS"]));
    let filtered = LogParser::filter_smart_tags(tags.clone(), &strings(&["continent"]));
    assert_eq!(filtered, strings(&["Europe"]));
    // What is neither the tag of a rule nor a continent is taken for a country.
    let filtered = LogParser::filter_smart_tags(tags.clone(), &strings(&["country"]));
    assert_eq!(filtered, strings(&["Germany", "Litchi"]));
    let filtered = LogParser::filter_smart_tags(tags.clone(), &strings(&["unknown_rule"]));
    assert_eq!(filtered, Vec::<String>::new());
    let filtered = LogParser::filter_smart_tags(tags, &strings(&["night_flight", "country", "continent"]));
    assert_eq!(filtered, strings(&["Night Flight", "Germany", "Europe", "Litchi"]));
}

#[test]
fn every_rule_has_its_identifier() {
    let pairs = [
        ("night_flight", "Night Flight"),
        ("high_speed", "High Speed"),
        ("cold_battery", "Cold Battery"),
        ("heavy_load", "Heavy Load"),
        ("low_battery", "Low Battery"),
        ("high_altitude", "High Altitude"),
        ("long_distance", "Long Distance"),
        ("long_flight", "Long Flight"),
        ("short_flight", "Short Flight"),
        ("aggressive_flying", "Aggressive Flying"),
        ("no_gps", "No GPS"),
    ];
    for (id, tag) in pairs {
        assert_eq!(rule_tag(id), Some(tag));
    }
    assert_eq!(rule_tag("country"), None);
    assert_eq!(rule_tag("Night Flight"), None);
}
