//! Flights entered by hand, without a log file.
//!
//! Such a flight has no telemetry: its number of points is zero by design.

use vstd::prelude::*;
use crate::database::{note_rows, tag_rows, tagged_upto, Database};
use crate::import::{imported_notes, is_insertable};
use crate::dronelogbook_parser::{compute_end, export_end};
use crate::models::{text_of, FlightMetadata, FlightMetadataView, FlightStats, ImportResult};
use crate::numbers::{decimal_text, write_decimal};
use crate::parser::{join2, join3, normalize_serial, normalized_serial};
use crate::tags::{generate, smart_tags};
use crate::text::{chars_of, is_blank, texts, trim};
use crate::timestamps::{parse_rfc3339, rfc3339_instant};

verus! {

/// What a user states of a flight entered by hand.
#[derive(Debug, Clone, PartialEq, Eq)]
pub struct ManualFlight {
    pub flight_title: Option<String>,
    pub aircraft_name: String,
    pub drone_serial: String,
    pub battery_serial: String,
    /// The start, in RFC 3339 form.
    pub start_time: String,
    pub duration_ms: i64,
    pub total_distance: Option<i64>,
    pub max_altitude: Option<i64>,
    pub home_lat: i64,
    pub home_lon: i64,
    pub notes: Option<String>,
}

/// A flight entered by hand, ready to be stored.
#[derive(Debug, Clone, PartialEq, Eq)]
pub struct ManualEntry {
    pub metadata: FlightMetadata,
    /// The automatic tags: `Manual Entry`, then the smart tags.
    pub tags: Vec<String>,
    pub notes: Option<String>,
}

/// A whole number in decimal digits, with a minus sign before a negative
/// one.
pub open spec fn signed_text(n: i64) -> Seq<char> {
    if n < 0 {
        "-"@ + decimal_text((-n) as nat)
    } else {
        decimal_text(n as nat)
    }
}

/// Writes a whole number in decimal digits.
pub fn write_signed(n: i64) -> (text: String)
    ensures
        text@ == signed_text(n),
{
    if n < 0 {
        let magnitude: u64 = if n == i64::MIN {
            0x8000_0000_0000_0000
        } else {
            (-n) as u64
        };
        let digits = write_decimal(magnitude);
        join2("-", digits.as_str())
    } else {
        write_decimal(n as u64)
    }
}

/// Why an entry is refused, if it is: the first of the required texts
/// that is blank, or a start that is not in RFC 3339 form.
pub open spec fn manual_fault(payload: ManualFlight) -> Option<Seq<char>> {
    if is_blank(payload.aircraft_name@) {
        Some("Aircraft name is required"@)
    } else if is_blank(payload.drone_serial@) {
        Some("Drone serial is required"@)
    } else if is_blank(payload.battery_serial@) {
        Some("Battery serial is required"@)
    } else if rfc3339_instant(payload.start_time@) is None {
        Some("Invalid start time format"@)
    } else {
        None
    }
}

/// The statistics that the tag rules read of a flight entered by hand.
pub open spec fn manual_stats(payload: ManualFlight) -> FlightStats {
    FlightStats {
        duration_ms: payload.duration_ms,
        total_distance: match payload.total_distance {
            Some(d) => d,
            None => 0,
        },
        max_altitude: match payload.max_altitude {
            Some(a) => a,
            None => 0,
        },
        max_speed: 0,
        avg_speed: 0,
        min_battery: 100,
        home_location: Some((payload.home_lon, payload.home_lat)),
        max_distance_from_home: 0,
        start_battery_percent: None,
        end_battery_percent: None,
        start_battery_temp: None,
    }
}

/// The name under which a flight entered by hand is shown: its title, or
/// the name of the aircraft where the title is missing or blank.
pub open spec fn manual_display_name(payload: ManualFlight) -> Seq<char> {
    match payload.flight_title {
        Some(title) => if is_blank(title@) {
            payload.aircraft_name@
        } else {
            title@
        },
        None => payload.aircraft_name@,
    }
}

/// The metadata of a flight entered by hand.
pub open spec fn manual_metadata(payload: ManualFlight, flight_id: i64) -> FlightMetadataView {
    let start = rfc3339_instant(payload.start_time@);
    FlightMetadataView {
        id: flight_id,
        file_name: "manual_entry_"@ + signed_text(flight_id) + ".log"@,
        display_name: manual_display_name(payload),
        file_hash: None,
        drone_model: Some("Manual Entry ("@ + payload.aircraft_name@ + ")"@),
        drone_serial: normalized_serial(payload.drone_serial@),
        aircraft_name: Some(payload.aircraft_name@),
        battery_serial: normalized_serial(payload.battery_serial@),
        start_time: start,
        end_time: export_end(start, Some(payload.duration_ms)),
        duration_ms: Some(payload.duration_ms),
        total_distance: payload.total_distance,
        max_altitude: payload.max_altitude,
        max_speed: None,
        home_lat: Some(payload.home_lat),
        home_lon: Some(payload.home_lon),
        point_count: 0,
        photo_count: 0,
        video_count: 0,
    }
}

fn is_blank_text(text: &str) -> (r: bool)
    ensures
        r == is_blank(text@),
{
    trim(&chars_of(text)).len() == 0
}

/// Makes a flight from what a user states of it. `cc` is the code of the
/// country where the home position lies.
pub fn create_manual_flight(payload: &ManualFlight, flight_id: i64, cc: &str) -> (r: Result<
    ManualEntry,
    String,
>)
    ensures
        r is Err <==> manual_fault(*payload) is Some,
        r matches Err(e) ==> Some(e@) == manual_fault(*payload),
        r matches Ok(entry) ==> {
            &&& entry.metadata@ == manual_metadata(*payload, flight_id)
            &&& texts(entry.tags@) == seq!["Manual Entry"@] + smart_tags(
                entry.metadata,
                manual_stats(*payload),
                cc@,
            )
            &&& text_of(entry.notes) == match payload.notes {
                Some(n) => if is_blank(n@) {
                    None
                } else {
                    Some(n@)
                },
                None => None,
            }
        },
{
    if is_blank_text(payload.aircraft_name.as_str()) {
        return Err("Aircraft name is required".to_owned());
    }
    if is_blank_text(payload.drone_serial.as_str()) {
        return Err("Drone serial is required".to_owned());
    }
    if is_blank_text(payload.battery_serial.as_str()) {
        return Err("Battery serial is required".to_owned());
    }
    let start = match parse_rfc3339(payload.start_time.as_str()) {
        Some(s) => s,
        None => {
            return Err("Invalid start time format".to_owned());
        },
    };
    let shown = match &payload.flight_title {
        Some(title) => if is_blank_text(title.as_str()) {
            payload.aircraft_name.clone()
        } else {
            title.clone()
        },
        None => payload.aircraft_name.clone(),
    };
    let id_text = write_signed(flight_id);
    let metadata = FlightMetadata {
        id: flight_id,
        file_name: join3("manual_entry_", id_text.as_str(), ".log"),
        display_name: shown,
        file_hash: None,
        drone_model: Some(join3("Manual Entry (", payload.aircraft_name.as_str(), ")")),
        drone_serial: normalize_serial(payload.drone_serial.as_str()),
        aircraft_name: Some(payload.aircraft_name.clone()),
        battery_serial: normalize_serial(payload.battery_serial.as_str()),
        start_time: Some(start),
        end_time: compute_end(Some(start), Some(payload.duration_ms)),
        duration_ms: Some(payload.duration_ms),
        total_distance: payload.total_distance,
        max_altitude: payload.max_altitude,
        max_speed: None,
        home_lat: Some(payload.home_lat),
        home_lon: Some(payload.home_lon),
        point_count: 0,
        photo_count: 0,
        video_count: 0,
    };
    let stats = FlightStats {
        duration_ms: payload.duration_ms,
        total_distance: match payload.total_distance {
            Some(d) => d,
            None => 0,
        },
        max_altitude: match payload.max_altitude {
            Some(a) => a,
            None => 0,
        },
        max_speed: 0,
        avg_speed: 0,
        min_battery: 100,
        home_location: Some((payload.home_lon, payload.home_lat)),
        max_distance_from_home: 0,
        start_battery_percent: None,
        end_battery_percent: None,
        start_battery_temp: None,
    };
    let mut tags = generate(&metadata, &stats, cc);
    let first = "Manual Entry".to_owned();
    proof {
        assert(texts(tags@.insert(0, first)) =~= seq!["Manual Entry"@] + texts(tags@));
    }
    tags.insert(0, first);
    let notes = match &payload.notes {
        Some(n) => if is_blank_text(n.as_str()) {
            None
        } else {
            Some(n.clone())
        },
        None => None,
    };
    Ok(ManualEntry { metadata, tags, notes })
}

impl Database {
    /// Stores a flight entered by hand: the flight, its notes and its
    /// tags. Where the store refuses the flight, nothing of it is stored
    /// and the refusal is the answer.
    pub fn store_manual_flight(&mut self, entry: ManualEntry) -> (r: Result<ImportResult, String>)
        requires
            old(self).well_formed(),
        ensures
            final(self).well_formed(),
            final(self).telemetry == old(self).telemetry,
            final(self).settings == old(self).settings,
            final(self).equipment == old(self).equipment,
            final(self).messages == old(self).messages,
            r is Err <==> !is_insertable(*old(self), entry.metadata),
            r matches Err(e) ==> *final(self) == *old(self) && e@
                == "Failed to insert flight: the store holds it already"@,
            r matches Ok(report) ==> {
                &&& report.success
                &&& report.flight_id == Some(entry.metadata.id)
                &&& report.point_count == 0
                &&& report.file_hash is None
                &&& report.message@ == "Manual flight entry created successfully"@
                &&& final(self).flights@ == old(self).flights@.push(entry.metadata)
                &&& tag_rows(final(self).tags@) == tagged_upto(
                    tag_rows(old(self).tags@),
                    entry.metadata.id,
                    texts(entry.tags@),
                    "auto"@,
                    entry.tags@.len() as int,
                )
                &&& note_rows(final(self).notes@) == imported_notes(
                    old(self).notes@,
                    entry.metadata.id,
                    text_of(entry.notes),
                )
            },
    {
        let flight_id = match self.insert_flight(entry.metadata) {
            Ok(id) => id,
            Err(_) => {
                return Err("Failed to insert flight: the store holds it already".to_owned());
            },
        };
        match &entry.notes {
            Some(text) => {
                self.update_flight_notes(flight_id, Some(text.as_str()));
            },
            None => {},
        }
        self.insert_flight_tags(flight_id, &entry.tags);
        Ok(
            ImportResult {
                success: true,
                flight_id: Some(flight_id),
                message: "Manual flight entry created successfully".to_owned(),
                point_count: 0,
                file_hash: None,
            },
        )
    }
}

} // verus!
