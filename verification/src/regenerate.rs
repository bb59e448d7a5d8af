//! Deriving the automatic tags of stored flights anew.

use vstd::prelude::*;
use crate::database::{
    are_records_of, flight_points, is_served, not_auto_of, tag_rows, tagged_upto, Database,
    DatabaseError,
};
use crate::dedup::has_id;
use crate::models::{text_of, Flight, FlightMetadata, FlightMetadataView, TelemetryRecord};
use crate::ordering::stable_sorted;
use crate::parser::Survey;
use crate::stats::{stats_from_records, stats_of_records};
use crate::table::select;
use crate::tags::{filter, filtered_tags, generate, smart_tags};
use crate::text::texts;
use crate::timestamps::{first_instant, naive_instant, parse_naive, parse_rfc3339, rfc3339_instant};

verus! {

/// The number of points up to which the telemetry of a flight is read as
/// it is when its tags are derived anew.
pub const REGENERATION_LIMIT: usize = 50000;

/// The instant that a stored text writes: in RFC 3339 form, or without
/// time zone, as UTC, with or without fractions of a second.
pub open spec fn stored_instant(text: Seq<char>) -> Option<i64> {
    first_instant(
        rfc3339_instant(text),
        first_instant(
            naive_instant(text, "%Y-%m-%d %H:%M:%S"@),
            naive_instant(text, "%Y-%m-%d %H:%M:%S%.f"@),
        ),
    )
}

/// Reads the instant that a stored text writes.
pub fn parse_stored_instant(text: &str) -> (r: Option<i64>)
    ensures
        r == stored_instant(text@),
{
    match parse_rfc3339(text) {
        Some(x) => Some(x),
        None => match parse_naive(text, "%Y-%m-%d %H:%M:%S") {
            Some(x) => Some(x),
            None => parse_naive(text, "%Y-%m-%d %H:%M:%S%.f"),
        },
    }
}

/// The instant that a stored text writes, where there is a text.
pub open spec fn instant_of_stored(text: Option<String>) -> Option<i64> {
    match text {
        Some(t) => stored_instant(t@),
        None => None,
    }
}

/// A count, zero where there is none.
pub open spec fn count_or_zero(count: Option<i32>) -> i32 {
    match count {
        Some(c) => c,
        None => 0,
    }
}

/// The metadata that a listed flight stands for. The content hash and the
/// end are not carried over.
pub open spec fn metadata_view_of(flight: Flight) -> FlightMetadataView {
    FlightMetadataView {
        id: flight.id,
        file_name: flight.file_name@,
        display_name: flight.display_name@,
        file_hash: None,
        drone_model: text_of(flight.drone_model),
        drone_serial: text_of(flight.drone_serial),
        aircraft_name: text_of(flight.aircraft_name),
        battery_serial: text_of(flight.battery_serial),
        start_time: instant_of_stored(flight.start_time),
        end_time: None,
        duration_ms: flight.duration_ms,
        total_distance: flight.total_distance,
        max_altitude: flight.max_altitude,
        max_speed: flight.max_speed,
        home_lat: flight.home_lat,
        home_lon: flight.home_lon,
        point_count: count_or_zero(flight.point_count),
        photo_count: count_or_zero(flight.photo_count),
        video_count: count_or_zero(flight.video_count),
    }
}

fn copy_text(text: &Option<String>) -> (r: Option<String>)
    ensures
        text_of(r) == text_of(*text),
{
    match text {
        Some(t) => Some(t.clone()),
        None => None,
    }
}

/// Turns a listed flight into the metadata that the tag rules read.
pub fn metadata_of_flight(flight: &Flight) -> (metadata: FlightMetadata)
    ensures
        metadata@ == metadata_view_of(*flight),
{
    FlightMetadata {
        id: flight.id,
        file_name: flight.file_name.clone(),
        display_name: flight.display_name.clone(),
        file_hash: None,
        drone_model: copy_text(&flight.drone_model),
        drone_serial: copy_text(&flight.drone_serial),
        aircraft_name: copy_text(&flight.aircraft_name),
        battery_serial: copy_text(&flight.battery_serial),
        start_time: match &flight.start_time {
            Some(t) => parse_stored_instant(t.as_str()),
            None => None,
        },
        end_time: None,
        duration_ms: flight.duration_ms,
        total_distance: flight.total_distance,
        max_altitude: flight.max_altitude,
        max_speed: flight.max_speed,
        home_lat: flight.home_lat,
        home_lon: flight.home_lon,
        point_count: match flight.point_count {
            Some(c) => c,
            None => 0,
        },
        photo_count: match flight.photo_count {
            Some(c) => c,
            None => 0,
        },
        video_count: match flight.video_count {
            Some(c) => c,
            None => 0,
        },
    }
}

/// The index of the first of the flights from `from` on with the id.
pub open spec fn index_of_flight(flights: Seq<FlightMetadata>, flight_id: i64, from: int) -> int
    decreases flights.len() - from,
{
    if from < 0 || from >= flights.len() {
        flights.len() as int
    } else if flights[from].id == flight_id {
        from
    } else {
        index_of_flight(flights, flight_id, from + 1)
    }
}

/// The automatic tags that a flight gets when they are derived anew from
/// the records served of it: none without records; else its smart tags,
/// without those of the rules that are not enabled where rules are named.
pub open spec fn regenerated_tags(
    flight: FlightMetadata,
    records: Seq<TelemetryRecord>,
    survey: Survey,
    enabled: Option<Seq<Seq<char>>>,
) -> Seq<Seq<char>> {
    if records.len() == 0 {
        Seq::empty()
    } else {
        let smart = smart_tags(
            flight,
            stats_of_records(records, survey.legs@, survey.from_home@),
            survey.country_code@,
        );
        match enabled {
            Some(types) => filtered_tags(smart, types),
            None => smart,
        }
    }
}

/// The texts of a list of rules, where there is one.
pub open spec fn enabled_view(list: Option<&Vec<String>>) -> Option<Seq<Seq<char>>> {
    match list {
        Some(l) => Some(texts(l@)),
        None => None,
    }
}

impl Database {
    /// Finds the flight with the id.
    pub fn find_flight(&self, flight_id: i64) -> (r: Option<usize>)
        ensures
            r is Some <==> has_id(self.flights@, flight_id),
            r matches Some(i) ==> i < self.flights@.len() && self.flights@[i as int].id
                == flight_id && i == index_of_flight(self.flights@, flight_id, 0),
    {
        let mut i: usize = 0;
        while i < self.flights.len()
            invariant
                i <= self.flights.len(),
                forall|k: int| 0 <= k < i ==> (#[trigger] self.flights@[k]).id != flight_id,
                index_of_flight(self.flights@, flight_id, 0) == index_of_flight(
                    self.flights@,
                    flight_id,
                    i as int,
                ),
            decreases self.flights.len() - i,
        {
            if self.flights[i].id == flight_id {
                return Some(i);
            }
            i += 1;
        }
        None
    }

    /// Derives the automatic tags of one flight anew from its stored
    /// telemetry, read as it is up to 50000 points, and puts them in the
    /// place of the automatic tags that the flight had. The manual tags
    /// stay. `survey` holds the distances measured on the records of the
    /// flight. A flight without telemetry is left without automatic tags.
    pub fn regenerate_flight_smart_tags(
        &mut self,
        flight_id: i64,
        survey: &Survey,
        enabled_tag_types: Option<&Vec<String>>,
    ) -> (r: Result<(), DatabaseError>)
        requires
            old(self).well_formed(),
        ensures
            final(self).well_formed(),
            final(self).flights == old(self).flights,
            final(self).telemetry == old(self).telemetry,
            final(self).notes == old(self).notes,
            final(self).settings == old(self).settings,
            final(self).equipment == old(self).equipment,
            final(self).messages == old(self).messages,
            r is Err <==> !has_id(old(self).flights@, flight_id),
            r matches Err(e) ==> e == DatabaseError::FlightNotFound(flight_id) && final(self).tags
                == old(self).tags,
            r is Ok ==> exists|records: Seq<TelemetryRecord>, served: Seq<TelemetryRecord>|
                #[trigger] are_records_of(records, flight_points(old(self).telemetry@, flight_id))
                    && #[trigger] is_served(
                    served,
                    stable_sorted(records),
                    Some(REGENERATION_LIMIT),
                ) && tag_rows(final(self).tags@) == tagged_upto(
                    select(
                        tag_rows(old(self).tags@),
                        not_auto_of(tag_rows(old(self).tags@), flight_id),
                    ),
                    flight_id,
                    regenerated_tags(
                        old(self).flights@[index_of_flight(old(self).flights@, flight_id, 0)],
                        served,
                        *survey,
                        enabled_view(enabled_tag_types),
                    ),
                    "auto"@,
                    regenerated_tags(
                        old(self).flights@[index_of_flight(old(self).flights@, flight_id, 0)],
                        served,
                        *survey,
                        enabled_view(enabled_tag_types),
                    ).len() as int,
                ),
    {
        let index = match self.find_flight(flight_id) {
            Some(i) => i,
            None => {
                return Err(DatabaseError::FlightNotFound(flight_id));
            },
        };
        let served = self.get_flight_telemetry(flight_id, Some(REGENERATION_LIMIT), None);
        let tags: Vec<String> = if served.len() == 0 {
            let none: Vec<String> = Vec::new();
            assert(texts(none@) =~= Seq::<Seq<char>>::empty());
            none
        } else {
            let stats = stats_from_records(&served, &survey.legs, &survey.from_home);
            let smart = generate(&self.flights[index], &stats, survey.country_code.as_str());
            match enabled_tag_types {
                Some(types) => filter(smart, types),
                None => smart,
            }
        };
        self.replace_auto_tags(flight_id, &tags);
        Ok(())
    }
}

} // verus!
