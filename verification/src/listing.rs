//! The flights of the store as a list shows them.
//!
//! A listed flight carries what the table of flights holds of it, its
//! start written as text, its tags and its notes. The list has the flight
//! that started last first; flights without a start come last.

use vstd::prelude::*;
use crate::database::{
    flight_tags, tag_texts, Database, DatabaseError, StoredNote, StoredTag,
};
use crate::dedup::has_id;
use crate::models::{text_of, Flight, FlightMetadata};
use crate::ranking::{
    lemma_ranked_descends, lemma_ranked_len, lemma_ranked_rows, rank_all, ranked,
    ranks_are_ordered, Ranked,
};
use crate::regenerate::index_of_flight;
use crate::timestamps::{format_instant, instant_text};

verus! {

/// What a listed flight holds.
pub struct FlightView {
    pub id: i64,
    pub file_name: Seq<char>,
    pub display_name: Seq<char>,
    pub file_hash: Option<Seq<char>>,
    pub drone_model: Option<Seq<char>>,
    pub drone_serial: Option<Seq<char>>,
    pub aircraft_name: Option<Seq<char>>,
    pub battery_serial: Option<Seq<char>>,
    pub start_time: Option<Seq<char>>,
    pub duration_ms: Option<i64>,
    pub total_distance: Option<i64>,
    pub max_altitude: Option<i64>,
    pub max_speed: Option<i64>,
    pub home_lat: Option<i64>,
    pub home_lon: Option<i64>,
    pub point_count: Option<i32>,
    pub photo_count: Option<i32>,
    pub video_count: Option<i32>,
    /// The tags, each with its type.
    pub tags: Seq<(Seq<char>, Seq<char>)>,
    pub notes: Option<Seq<char>>,
}

impl View for Flight {
    type V = FlightView;

    open spec fn view(&self) -> FlightView {
        FlightView {
            id: self.id,
            file_name: self.file_name@,
            display_name: self.display_name@,
            file_hash: text_of(self.file_hash),
            drone_model: text_of(self.drone_model),
            drone_serial: text_of(self.drone_serial),
            aircraft_name: text_of(self.aircraft_name),
            battery_serial: text_of(self.battery_serial),
            start_time: text_of(self.start_time),
            duration_ms: self.duration_ms,
            total_distance: self.total_distance,
            max_altitude: self.max_altitude,
            max_speed: self.max_speed,
            home_lat: self.home_lat,
            home_lon: self.home_lon,
            point_count: self.point_count,
            photo_count: self.photo_count,
            video_count: self.video_count,
            tags: tag_texts(self.tags@),
            notes: text_of(self.notes),
        }
    }
}

/// The notes of a flight among the first `n` rows: those of the first row
/// of the flight.
pub open spec fn notes_upto(notes: Seq<StoredNote>, flight_id: i64, n: int) -> Option<Seq<char>>
    decreases n,
{
    if n <= 0 {
        None
    } else {
        match notes_upto(notes, flight_id, n - 1) {
            Some(text) => Some(text),
            None => if notes[n - 1].flight_id == flight_id {
                Some(notes[n - 1].notes@)
            } else {
                None
            },
        }
    }
}

/// The start of a flight as text.
pub open spec fn start_text(start: Option<i64>) -> Option<Seq<char>> {
    match start {
        Some(t) => instant_text(t),
        None => None,
    }
}

/// A flight as the list shows it, with the tags and the notes that the
/// tables hold of it.
pub open spec fn listed(flight: FlightMetadata, tags: Seq<StoredTag>, notes: Seq<StoredNote>) -> FlightView {
    FlightView {
        id: flight.id,
        file_name: flight.file_name@,
        display_name: flight.display_name@,
        file_hash: text_of(flight.file_hash),
        drone_model: text_of(flight.drone_model),
        drone_serial: text_of(flight.drone_serial),
        aircraft_name: text_of(flight.aircraft_name),
        battery_serial: text_of(flight.battery_serial),
        start_time: start_text(flight.start_time),
        duration_ms: flight.duration_ms,
        total_distance: flight.total_distance,
        max_altitude: flight.max_altitude,
        max_speed: flight.max_speed,
        home_lat: flight.home_lat,
        home_lon: flight.home_lon,
        point_count: Some(flight.point_count),
        photo_count: Some(flight.photo_count),
        video_count: Some(flight.video_count),
        tags: tag_texts(flight_tags(tags, flight.id)),
        notes: notes_upto(notes, flight.id, notes.len() as int),
    }
}

/// The place of a flight in the table, with the start by which the list
/// is ordered.
#[derive(Debug, Clone, Copy, PartialEq, Eq)]
pub struct Entry {
    pub index: usize,
    pub start_time: Option<i64>,
}

impl Ranked for Entry {
    /// A flight ranks above those that started before it, and above those
    /// without a start where it has one.
    open spec fn above(&self, other: &Self) -> bool {
        match (self.start_time, other.start_time) {
            (Some(a), Some(b)) => a > b,
            (Some(_), None) => true,
            (None, _) => false,
        }
    }

    fn outranks(&self, other: &Self) -> (r: bool) {
        match (self.start_time, other.start_time) {
            (Some(a), Some(b)) => a > b,
            (Some(_), None) => true,
            (None, _) => false,
        }
    }
}

/// The places of the flights with their starts.
pub open spec fn entries(flights: Seq<FlightMetadata>) -> Seq<Entry> {
    Seq::new(
        flights.len(),
        |i: int| Entry { index: i as usize, start_time: flights[i].start_time },
    )
}

/// The places of the flights in the order of the list.
pub open spec fn listing_order(flights: Seq<FlightMetadata>) -> Seq<Entry> {
    ranked(entries(flights))
}

/// Every place in the order of the list is a place in the table.
pub proof fn lemma_listing_order_in_range(flights: Seq<FlightMetadata>)
    requires
        flights.len() <= usize::MAX,
    ensures
        listing_order(flights).len() == flights.len(),
        forall|k: int|
            0 <= k < flights.len() ==> (#[trigger] listing_order(flights)[k]).index < flights.len(),
{
    lemma_ranked_len(entries(flights));
    lemma_ranked_rows(entries(flights));
    assert forall|k: int| 0 <= k < flights.len() implies (#[trigger] listing_order(
        flights,
    )[k]).index < flights.len() by {
        let e = listing_order(flights)[k];
        let j = choose|j: int| 0 <= j < entries(flights).len() && entries(flights)[j] == e;
        assert(entries(flights)[j].index == j);
    }
}

/// In the order of the list no flight started later than one that
/// stands before it, and no flight with a start stands behind one
/// without.
pub proof fn lemma_listing_order_descends(flights: Seq<FlightMetadata>)
    ensures
        forall|i: int, j: int|
            #![trigger listing_order(flights)[j], listing_order(flights)[i]]
            0 <= i <= j < listing_order(flights).len() ==> !listing_order(flights)[j].above(
                &listing_order(flights)[i],
            ),
{
    assert(ranks_are_ordered::<Entry>());
    lemma_ranked_descends(entries(flights));
}

fn copy_text(text: &Option<String>) -> (r: Option<String>)
    ensures
        r == *text,
{
    match text {
        Some(t) => Some(t.clone()),
        None => None,
    }
}

impl Database {
    /// The notes of a flight.
    pub fn get_flight_notes(&self, flight_id: i64) -> (r: Option<String>)
        ensures
            text_of(r) == notes_upto(self.notes@, flight_id, self.notes@.len() as int),
    {
        let mut found: Option<String> = None;
        let mut i: usize = 0;
        while i < self.notes.len()
            invariant
                i <= self.notes.len(),
                text_of(found) == notes_upto(self.notes@, flight_id, i as int),
            decreases self.notes.len() - i,
        {
            if found.is_none() && self.notes[i].flight_id == flight_id {
                found = Some(self.notes[i].notes.clone());
            }
            i += 1;
        }
        found
    }

    /// The flight at a place of the table as the list shows it.
    pub fn flight_at(&self, index: usize) -> (flight: Flight)
        requires
            index < self.flights@.len(),
        ensures
            flight@ == listed(self.flights@[index as int], self.tags@, self.notes@),
    {
        let m = &self.flights[index];
        Flight {
            id: m.id,
            file_name: m.file_name.clone(),
            display_name: m.display_name.clone(),
            file_hash: copy_text(&m.file_hash),
            drone_model: copy_text(&m.drone_model),
            drone_serial: copy_text(&m.drone_serial),
            aircraft_name: copy_text(&m.aircraft_name),
            battery_serial: copy_text(&m.battery_serial),
            start_time: match m.start_time {
                Some(t) => format_instant(t),
                None => None,
            },
            duration_ms: m.duration_ms,
            total_distance: m.total_distance,
            max_altitude: m.max_altitude,
            max_speed: m.max_speed,
            home_lat: m.home_lat,
            home_lon: m.home_lon,
            point_count: Some(m.point_count),
            photo_count: Some(m.photo_count),
            video_count: Some(m.video_count),
            tags: self.get_flight_tags(m.id),
            notes: self.get_flight_notes(m.id),
        }
    }

    /// The flight with the id as the list shows it. Where no flight has
    /// the id, the answer says so.
    pub fn get_flight_by_id(&self, flight_id: i64) -> (r: Result<Flight, DatabaseError>)
        ensures
            r is Ok <==> has_id(self.flights@, flight_id),
            r matches Ok(flight) ==> flight@ == listed(
                self.flights@[index_of_flight(self.flights@, flight_id, 0)],
                self.tags@,
                self.notes@,
            ),
            r matches Err(e) ==> e == DatabaseError::FlightNotFound(flight_id),
    {
        match self.find_flight(flight_id) {
            Some(index) => Ok(self.flight_at(index)),
            None => Err(DatabaseError::FlightNotFound(flight_id)),
        }
    }

    /// All flights as the list shows them: the flight that started last
    /// first, flights with one start in the order of the table, flights
    /// without a start last.
    pub fn get_all_flights(&self) -> (list: Vec<Flight>)
        ensures
            list@.len() == self.flights@.len(),
            forall|k: int|
                0 <= k < list@.len() ==> (#[trigger] list@[k])@ == listed(
                    self.flights@[listing_order(self.flights@)[k].index as int],
                    self.tags@,
                    self.notes@,
                ),
    {
        let mut places: Vec<Entry> = Vec::new();
        let mut i: usize = 0;
        while i < self.flights.len()
            invariant
                i <= self.flights.len(),
                places@ =~= entries(self.flights@).take(i as int),
            decreases self.flights.len() - i,
        {
            places.push(Entry { index: i, start_time: self.flights[i].start_time });
            i += 1;
        }
        assert(places@ =~= entries(self.flights@));
        let order = rank_all(places);
        proof {
            lemma_listing_order_in_range(self.flights@);
        }
        let mut list: Vec<Flight> = Vec::new();
        let mut k: usize = 0;
        while k < order.len()
            invariant
                k <= order.len(),
                order@ == listing_order(self.flights@),
                order@.len() == self.flights@.len(),
                forall|j: int|
                    0 <= j < order@.len() ==> (#[trigger] order@[j]).index < self.flights@.len(),
                list@.len() == k,
                forall|j: int|
                    0 <= j < k ==> (#[trigger] list@[j])@ == listed(
                        self.flights@[order@[j].index as int],
                        self.tags@,
                        self.notes@,
                    ),
            decreases order.len() - k,
        {
            list.push(self.flight_at(order[k].index));
            k += 1;
        }
        list
    }
}

} // verus!
