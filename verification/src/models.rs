//! The data of the logbook: flights, their tags and messages, and the
//! telemetry of a flight as it is parsed, stored and served.
//!
//! Measurements are scaled integers (see [`crate::numbers`]):
//!
//! | quantity | unit |
//! |---|---|
//! | latitude, longitude | 1e-7 degree |
//! | altitude, height, distance | millimetre |
//! | speed, velocity | millimetre per second |
//! | angles | millidegree |
//! | voltage, current, temperature | millivolt, milliampere, millidegree Celsius |
//! | stick positions | thousandth of a percent, within -100_000..=100_000 |
//! | time within a flight, durations | millisecond |
//! | wall-clock instants | microsecond since the Unix epoch, UTC |
//!
//! A field that a log does not report is `None`, never zero.

use vstd::prelude::*;

verus! {

/// One row of the flight table, as an import produces it.
#[derive(Debug, Clone, PartialEq, Eq)]
pub struct FlightMetadata {
    pub id: i64,
    pub file_name: String,
    pub display_name: String,
    pub file_hash: Option<String>,
    pub drone_model: Option<String>,
    pub drone_serial: Option<String>,
    pub aircraft_name: Option<String>,
    pub battery_serial: Option<String>,
    pub start_time: Option<i64>,
    pub end_time: Option<i64>,
    pub duration_ms: Option<i64>,
    pub total_distance: Option<i64>,
    pub max_altitude: Option<i64>,
    pub max_speed: Option<i64>,
    pub home_lat: Option<i64>,
    pub home_lon: Option<i64>,
    pub point_count: i32,
    /// The number of times that a photo was taken.
    pub photo_count: i32,
    /// The number of times that a recording of video began.
    pub video_count: i32,
}

/// A tag of a flight. `tag_type` is `"auto"` for a tag that the rules
/// derive from the flight's statistics and `"manual"` for one that a user
/// gave or a re-import kept.
#[derive(Debug, Clone, PartialEq, Eq)]
pub struct FlightTag {
    pub tag: String,
    pub tag_type: String,
}

/// One flight as the list of flights shows it.
#[derive(Debug, Clone, PartialEq, Eq)]
pub struct Flight {
    pub id: i64,
    pub file_name: String,
    pub display_name: String,
    pub file_hash: Option<String>,
    pub drone_model: Option<String>,
    pub drone_serial: Option<String>,
    pub aircraft_name: Option<String>,
    pub battery_serial: Option<String>,
    pub start_time: Option<String>,
    pub duration_ms: Option<i64>,
    pub total_distance: Option<i64>,
    pub max_altitude: Option<i64>,
    pub max_speed: Option<i64>,
    pub home_lat: Option<i64>,
    pub home_lon: Option<i64>,
    pub point_count: Option<i32>,
    pub photo_count: Option<i32>,
    pub video_count: Option<i32>,
    pub tags: Vec<FlightTag>,
    pub notes: Option<String>,
}

/// One instant of a flight, as a parser emits it for the bulk load.
#[derive(Debug, Clone, PartialEq, Eq)]
pub struct TelemetryPoint {
    pub timestamp_ms: i64,
    pub latitude: Option<i64>,
    pub longitude: Option<i64>,
    pub altitude: Option<i64>,
    pub height: Option<i64>,
    pub vps_height: Option<i64>,
    pub altitude_abs: Option<i64>,
    pub speed: Option<i64>,
    pub velocity_x: Option<i64>,
    pub velocity_y: Option<i64>,
    pub velocity_z: Option<i64>,
    pub pitch: Option<i64>,
    pub roll: Option<i64>,
    pub yaw: Option<i64>,
    pub gimbal_pitch: Option<i64>,
    pub gimbal_roll: Option<i64>,
    pub gimbal_yaw: Option<i64>,
    pub battery_percent: Option<i32>,
    pub battery_voltage: Option<i64>,
    pub battery_current: Option<i64>,
    pub battery_temp: Option<i64>,
    pub cell_voltages: Option<Vec<i64>>,
    pub flight_mode: Option<String>,
    pub gps_signal: Option<i32>,
    pub satellites: Option<i32>,
    pub rc_signal: Option<i32>,
    pub rc_uplink: Option<i32>,
    pub rc_downlink: Option<i32>,
    pub rc_aileron: Option<i64>,
    pub rc_elevator: Option<i64>,
    pub rc_throttle: Option<i64>,
    pub rc_rudder: Option<i64>,
    pub is_photo: Option<bool>,
    pub is_video: Option<bool>,
}

impl TelemetryPoint {
    /// The point at `timestamp_ms` of which nothing else is reported.
    pub open spec fn blank(timestamp_ms: i64) -> TelemetryPoint {
        TelemetryPoint {
            timestamp_ms,
            latitude: None,
            longitude: None,
            altitude: None,
            height: None,
            vps_height: None,
            altitude_abs: None,
            speed: None,
            velocity_x: None,
            velocity_y: None,
            velocity_z: None,
            pitch: None,
            roll: None,
            yaw: None,
            gimbal_pitch: None,
            gimbal_roll: None,
            gimbal_yaw: None,
            battery_percent: None,
            battery_voltage: None,
            battery_current: None,
            battery_temp: None,
            cell_voltages: None,
            flight_mode: None,
            gps_signal: None,
            satellites: None,
            rc_signal: None,
            rc_uplink: None,
            rc_downlink: None,
            rc_aileron: None,
            rc_elevator: None,
            rc_throttle: None,
            rc_rudder: None,
            is_photo: None,
            is_video: None,
        }
    }

    /// A point at `timestamp_ms` of which nothing else is reported.
    pub fn new(timestamp_ms: i64) -> (p: TelemetryPoint)
        ensures
            p == TelemetryPoint::blank(timestamp_ms),
    {
        TelemetryPoint {
            timestamp_ms,
            latitude: None,
            longitude: None,
            altitude: None,
            height: None,
            vps_height: None,
            altitude_abs: None,
            speed: None,
            velocity_x: None,
            velocity_y: None,
            velocity_z: None,
            pitch: None,
            roll: None,
            yaw: None,
            gimbal_pitch: None,
            gimbal_roll: None,
            gimbal_yaw: None,
            battery_percent: None,
            battery_voltage: None,
            battery_current: None,
            battery_temp: None,
            cell_voltages: None,
            flight_mode: None,
            gps_signal: None,
            satellites: None,
            rc_signal: None,
            rc_uplink: None,
            rc_downlink: None,
            rc_aileron: None,
            rc_elevator: None,
            rc_throttle: None,
            rc_rudder: None,
            is_photo: None,
            is_video: None,
        }
    }
}

impl Default for TelemetryPoint {
    fn default() -> (p: TelemetryPoint)
        ensures
            p == TelemetryPoint::blank(0),
    {
        TelemetryPoint::new(0)
    }
}

/// One instant of a flight, as the store serves it.
#[derive(Debug, Clone, PartialEq, Eq)]
pub struct TelemetryRecord {
    pub timestamp_ms: i64,
    pub latitude: Option<i64>,
    pub longitude: Option<i64>,
    pub altitude: Option<i64>,
    pub height: Option<i64>,
    pub vps_height: Option<i64>,
    pub speed: Option<i64>,
    pub velocity_x: Option<i64>,
    pub velocity_y: Option<i64>,
    pub velocity_z: Option<i64>,
    pub battery_percent: Option<i32>,
    pub battery_voltage: Option<i64>,
    pub battery_temp: Option<i64>,
    pub cell_voltages: Option<Vec<i64>>,
    pub pitch: Option<i64>,
    pub roll: Option<i64>,
    pub yaw: Option<i64>,
    pub satellites: Option<i32>,
    pub flight_mode: Option<String>,
    pub rc_signal: Option<i32>,
    pub rc_uplink: Option<i32>,
    pub rc_downlink: Option<i32>,
    pub rc_aileron: Option<i64>,
    pub rc_elevator: Option<i64>,
    pub rc_throttle: Option<i64>,
    pub rc_rudder: Option<i64>,
    pub is_photo: Option<bool>,
    pub is_video: Option<bool>,
}

/// A tip or a warning that the flight app showed. `message_type` is
/// `"tip"` or `"warn"`.
#[derive(Debug, Clone, PartialEq, Eq)]
pub struct FlightMessage {
    pub timestamp_ms: i64,
    pub message_type: String,
    pub message: String,
}

/// How often one aircraft flew.
#[derive(Debug, Clone, PartialEq, Eq)]
pub struct DroneUsage {
    pub drone_model: String,
    pub drone_serial: Option<String>,
    pub aircraft_name: Option<String>,
    pub flight_count: i64,
}

/// The number of flights on one day.
#[derive(Debug, Clone, PartialEq, Eq)]
pub struct FlightDateCount {
    pub date: String,
    pub count: i64,
}

/// What an import reports back.
#[derive(Debug, Clone, PartialEq, Eq)]
pub struct ImportResult {
    pub success: bool,
    pub flight_id: Option<i64>,
    pub message: String,
    pub point_count: usize,
    pub file_hash: Option<String>,
}

/// The statistics of one flight that the tag rules read.
#[derive(Debug, Clone, PartialEq, Eq)]
pub struct FlightStats {
    pub duration_ms: i64,
    pub total_distance: i64,
    pub max_altitude: i64,
    pub max_speed: i64,
    pub avg_speed: i64,
    pub min_battery: i32,
    /// Longitude first, latitude second.
    pub home_location: Option<(i64, i64)>,
    pub max_distance_from_home: i64,
    pub start_battery_percent: Option<i32>,
    pub end_battery_percent: Option<i32>,
    pub start_battery_temp: Option<i64>,
}

/// The text that an optional string holds.
pub open spec fn text_of(text: Option<String>) -> Option<Seq<char>> {
    match text {
        Some(t) => Some(t@),
        None => None,
    }
}

/// The values that an optional vector holds.
pub open spec fn values_of(values: Option<Vec<i64>>) -> Option<Seq<i64>> {
    match values {
        Some(v) => Some(v@),
        None => None,
    }
}

/// What the points hold, one after the other.
pub open spec fn point_views(points: Seq<TelemetryPoint>) -> Seq<TelemetryPointView> {
    Seq::new(points.len(), |i: int| points[i]@)
}

/// What a [`TelemetryPoint`] holds.
pub struct TelemetryPointView {
    pub timestamp_ms: i64,
    pub latitude: Option<i64>,
    pub longitude: Option<i64>,
    pub altitude: Option<i64>,
    pub height: Option<i64>,
    pub vps_height: Option<i64>,
    pub altitude_abs: Option<i64>,
    pub speed: Option<i64>,
    pub velocity_x: Option<i64>,
    pub velocity_y: Option<i64>,
    pub velocity_z: Option<i64>,
    pub pitch: Option<i64>,
    pub roll: Option<i64>,
    pub yaw: Option<i64>,
    pub gimbal_pitch: Option<i64>,
    pub gimbal_roll: Option<i64>,
    pub gimbal_yaw: Option<i64>,
    pub battery_percent: Option<i32>,
    pub battery_voltage: Option<i64>,
    pub battery_current: Option<i64>,
    pub battery_temp: Option<i64>,
    pub cell_voltages: Option<Seq<i64>>,
    pub flight_mode: Option<Seq<char>>,
    pub gps_signal: Option<i32>,
    pub satellites: Option<i32>,
    pub rc_signal: Option<i32>,
    pub rc_uplink: Option<i32>,
    pub rc_downlink: Option<i32>,
    pub rc_aileron: Option<i64>,
    pub rc_elevator: Option<i64>,
    pub rc_throttle: Option<i64>,
    pub rc_rudder: Option<i64>,
    pub is_photo: Option<bool>,
    pub is_video: Option<bool>,
}

impl View for TelemetryPoint {
    type V = TelemetryPointView;

    open spec fn view(&self) -> TelemetryPointView {
        TelemetryPointView {
            timestamp_ms: self.timestamp_ms,
            latitude: self.latitude,
            longitude: self.longitude,
            altitude: self.altitude,
            height: self.height,
            vps_height: self.vps_height,
            altitude_abs: self.altitude_abs,
            speed: self.speed,
            velocity_x: self.velocity_x,
            velocity_y: self.velocity_y,
            velocity_z: self.velocity_z,
            pitch: self.pitch,
            roll: self.roll,
            yaw: self.yaw,
            gimbal_pitch: self.gimbal_pitch,
            gimbal_roll: self.gimbal_roll,
            gimbal_yaw: self.gimbal_yaw,
            battery_percent: self.battery_percent,
            battery_voltage: self.battery_voltage,
            battery_current: self.battery_current,
            battery_temp: self.battery_temp,
            cell_voltages: values_of(self.cell_voltages),
            flight_mode: text_of(self.flight_mode),
            gps_signal: self.gps_signal,
            satellites: self.satellites,
            rc_signal: self.rc_signal,
            rc_uplink: self.rc_uplink,
            rc_downlink: self.rc_downlink,
            rc_aileron: self.rc_aileron,
            rc_elevator: self.rc_elevator,
            rc_throttle: self.rc_throttle,
            rc_rudder: self.rc_rudder,
            is_photo: self.is_photo,
            is_video: self.is_video,
        }
    }
}

/// What a [`FlightMetadata`] holds.
pub struct FlightMetadataView {
    pub id: i64,
    pub file_name: Seq<char>,
    pub display_name: Seq<char>,
    pub file_hash: Option<Seq<char>>,
    pub drone_model: Option<Seq<char>>,
    pub drone_serial: Option<Seq<char>>,
    pub aircraft_name: Option<Seq<char>>,
    pub battery_serial: Option<Seq<char>>,
    pub start_time: Option<i64>,
    pub end_time: Option<i64>,
    pub duration_ms: Option<i64>,
    pub total_distance: Option<i64>,
    pub max_altitude: Option<i64>,
    pub max_speed: Option<i64>,
    pub home_lat: Option<i64>,
    pub home_lon: Option<i64>,
    pub point_count: i32,
    pub photo_count: i32,
    pub video_count: i32,
}

impl View for FlightMetadata {
    type V = FlightMetadataView;

    open spec fn view(&self) -> FlightMetadataView {
        FlightMetadataView {
            id: self.id,
            file_name: self.file_name@,
            display_name: self.display_name@,
            file_hash: text_of(self.file_hash),
            drone_model: text_of(self.drone_model),
            drone_serial: text_of(self.drone_serial),
            aircraft_name: text_of(self.aircraft_name),
            battery_serial: text_of(self.battery_serial),
            start_time: self.start_time,
            end_time: self.end_time,
            duration_ms: self.duration_ms,
            total_distance: self.total_distance,
            max_altitude: self.max_altitude,
            max_speed: self.max_speed,
            home_lat: self.home_lat,
            home_lon: self.home_lon,
            point_count: self.point_count,
            photo_count: self.photo_count,
            video_count: self.video_count,
        }
    }
}

} // verus!
