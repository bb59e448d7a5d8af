//! Figures over all flights of the store.
//!
//! Sums and rankings of what the table of flights holds. Durations are in
//! milliseconds, lengths in millimetres, instants in microseconds since
//! the Unix epoch. A sum that leaves the range of `i64` is held at the end
//! of the range.

use vstd::prelude::*;
use crate::database::{Database, StoredPoint};
use crate::frames::{add_clamped, clamp_i64, GPS_EPSILON};
use crate::downsample::floor_div;
use crate::models::{text_of, DroneUsage, FlightDateCount, FlightMetadata};
use crate::ordering::{order_by_time, stable_sorted, Timed};
use crate::timestamps::{date_text, format_date};
use crate::ranking::{
    leaders, lemma_ranked_descends, rank_all, ranked, ranks_are_ordered, take_leaders, Ranked,
};
use crate::tags::is_text;
use crate::text::{precedes, text_precedes};
use crate::stats::{
    largest, max_present, positive_or_zero, total_length, total_of, value_or_zero,
};

verus! {

/// The number of flights among the longest that the figures name.
pub const TOP_FLIGHTS: usize = 3;

/// One of the longest flights.
#[derive(Debug, Clone, PartialEq, Eq)]
pub struct TopFlight {
    pub id: i64,
    pub display_name: String,
    pub duration_ms: i64,
    pub start_time: Option<i64>,
}

/// A flight with the greatest distance from home that it reached.
#[derive(Debug, Clone, PartialEq, Eq)]
pub struct TopDistanceFlight {
    pub id: i64,
    pub display_name: String,
    pub max_distance_from_home: i64,
    pub start_time: Option<i64>,
}

/// The greatest distance from home that was measured on the telemetry of
/// a flight.
#[derive(Debug, Clone, Copy, PartialEq, Eq)]
pub struct FlightReach {
    pub flight_id: i64,
    pub distance: i64,
}

impl Ranked for TopFlight {
    open spec fn above(&self, other: &Self) -> bool {
        self.duration_ms > other.duration_ms
    }

    fn outranks(&self, other: &Self) -> (r: bool) {
        self.duration_ms > other.duration_ms
    }
}

impl Ranked for TopDistanceFlight {
    open spec fn above(&self, other: &Self) -> bool {
        self.max_distance_from_home > other.max_distance_from_home
    }

    fn outranks(&self, other: &Self) -> (r: bool) {
        self.max_distance_from_home > other.max_distance_from_home
    }
}

// ---------------------------------------------------------------------------
// Totals
// ---------------------------------------------------------------------------

/// A quantity of a flight that the figures add up.
#[derive(Debug, Clone, Copy, PartialEq, Eq, Structural)]
pub enum Summed {
    Distance,
    Duration,
    Points,
    Photos,
    Videos,
}

/// What a flight adds to a sum: nothing where the flight does not have
/// the quantity.
pub open spec fn share(flight: FlightMetadata, q: Summed) -> i64 {
    match q {
        Summed::Distance => value_or_zero(flight.total_distance),
        Summed::Duration => value_or_zero(flight.duration_ms),
        Summed::Points => flight.point_count as i64,
        Summed::Photos => flight.photo_count as i64,
        Summed::Videos => flight.video_count as i64,
    }
}

/// What each flight adds to a sum.
pub open spec fn shares(flights: Seq<FlightMetadata>, q: Summed) -> Seq<i64> {
    Seq::new(flights.len(), |i: int| share(flights[i], q))
}

/// The greatest heights of the flights.
pub open spec fn heights(flights: Seq<FlightMetadata>) -> Seq<Option<i64>> {
    Seq::new(flights.len(), |i: int| flights[i].max_altitude)
}

/// The sum of a quantity over the flights.
pub fn sum_over(flights: &Vec<FlightMetadata>, q: Summed) -> (r: i64)
    ensures
        r == total_length(shares(flights@, q)),
{
    let mut column: Vec<i64> = Vec::new();
    let mut i: usize = 0;
    while i < flights.len()
        invariant
            i <= flights.len(),
            column@ =~= shares(flights@, q).take(i as int),
        decreases flights.len() - i,
    {
        let x = match q {
            Summed::Distance => match flights[i].total_distance {
                Some(v) => v,
                None => 0,
            },
            Summed::Duration => match flights[i].duration_ms {
                Some(v) => v,
                None => 0,
            },
            Summed::Points => flights[i].point_count as i64,
            Summed::Photos => flights[i].photo_count as i64,
            Summed::Videos => flights[i].video_count as i64,
        };
        column.push(x);
        i += 1;
    }
    assert(column@ =~= shares(flights@, q));
    total_of(&column)
}

/// The greatest height that a flight reached, zero where no flight has
/// one.
pub fn greatest_height(flights: &Vec<FlightMetadata>) -> (r: i64)
    ensures
        r == value_or_zero(max_present(heights(flights@))),
{
    let mut column: Vec<Option<i64>> = Vec::new();
    let mut i: usize = 0;
    while i < flights.len()
        invariant
            i <= flights.len(),
            column@ =~= heights(flights@).take(i as int),
        decreases flights.len() - i,
    {
        column.push(flights[i].max_altitude);
        i += 1;
    }
    assert(column@ =~= heights(flights@));
    match largest(&column) {
        Some(v) => v,
        None => 0,
    }
}

// ---------------------------------------------------------------------------
// The longest flights
// ---------------------------------------------------------------------------

/// The rows of the first `n` flights that have a duration, in the order of
/// the flights.
pub open spec fn timed_flights_upto(flights: Seq<FlightMetadata>, n: int) -> Seq<TopFlight>
    decreases n,
{
    if n <= 0 {
        Seq::empty()
    } else {
        let before = timed_flights_upto(flights, n - 1);
        let f = flights[n - 1];
        match f.duration_ms {
            Some(d) => before.push(
                TopFlight {
                    id: f.id,
                    display_name: f.display_name,
                    duration_ms: d,
                    start_time: f.start_time,
                },
            ),
            None => before,
        }
    }
}

/// The longest flights: of the flights that have a duration the
/// [`TOP_FLIGHTS`] with the longest, the longest first.
pub open spec fn longest_flights(flights: Seq<FlightMetadata>) -> Seq<TopFlight> {
    leaders(timed_flights_upto(flights, flights.len() as int), TOP_FLIGHTS as int)
}

/// No flight among the longest is longer than one that stands before it.
pub proof fn lemma_longest_flights_descend(flights: Seq<FlightMetadata>)
    ensures
        forall|i: int, j: int|
            #![trigger longest_flights(flights)[j], longest_flights(flights)[i]]
            0 <= i <= j < longest_flights(flights).len() ==> longest_flights(flights)[i].duration_ms
                >= longest_flights(flights)[j].duration_ms,
        longest_flights(flights).len() <= TOP_FLIGHTS,
{
    assert(ranks_are_ordered::<TopFlight>());
    lemma_ranked_descends(timed_flights_upto(flights, flights.len() as int));
}

/// Finds the longest flights.
pub fn top_flights(flights: &Vec<FlightMetadata>) -> (out: Vec<TopFlight>)
    ensures
        out@ == longest_flights(flights@),
{
    let mut rows: Vec<TopFlight> = Vec::new();
    let mut i: usize = 0;
    while i < flights.len()
        invariant
            i <= flights.len(),
            rows@ == timed_flights_upto(flights@, i as int),
        decreases flights.len() - i,
    {
        match flights[i].duration_ms {
            Some(d) => {
                rows.push(
                    TopFlight {
                        id: flights[i].id,
                        display_name: flights[i].display_name.clone(),
                        duration_ms: d,
                        start_time: flights[i].start_time,
                    },
                );
            },
            None => {},
        }
        i += 1;
    }
    take_leaders(rows, TOP_FLIGHTS)
}

// ---------------------------------------------------------------------------
// The flights that went farthest
// ---------------------------------------------------------------------------

/// True when a flight counts among those that went far: it has no home
/// latitude, or its home is not at the origin, where a receiver without a
/// lock puts it.
pub open spec fn has_real_home(flight: FlightMetadata) -> bool {
    match (flight.home_lat, flight.home_lon) {
        (None, _) => true,
        (Some(lat), None) => !(-GPS_EPSILON < lat < GPS_EPSILON),
        (Some(lat), Some(lon)) => !(-GPS_EPSILON < lat < GPS_EPSILON && -GPS_EPSILON < lon
            < GPS_EPSILON),
    }
}

/// The distance that was measured for a flight among the first `n`
/// measurements: the first for the flight.
pub open spec fn measured_upto(reach: Seq<FlightReach>, flight_id: i64, n: int) -> Option<i64>
    decreases n,
{
    if n <= 0 {
        None
    } else {
        match measured_upto(reach, flight_id, n - 1) {
            Some(d) => Some(d),
            None => if reach[n - 1].flight_id == flight_id {
                Some(reach[n - 1].distance)
            } else {
                None
            },
        }
    }
}

/// The distance that was measured for a flight, zero where none was.
pub open spec fn reach_of(reach: Seq<FlightReach>, flight_id: i64) -> i64 {
    value_or_zero(measured_upto(reach, flight_id, reach.len() as int))
}

/// The rows of the first `n` flights that count among those that went
/// far, in the order of the flights.
pub open spec fn far_flights_upto(
    flights: Seq<FlightMetadata>,
    reach: Seq<FlightReach>,
    n: int,
) -> Seq<TopDistanceFlight>
    decreases n,
{
    if n <= 0 {
        Seq::empty()
    } else {
        let before = far_flights_upto(flights, reach, n - 1);
        let f = flights[n - 1];
        if has_real_home(f) {
            before.push(
                TopDistanceFlight {
                    id: f.id,
                    display_name: f.display_name,
                    max_distance_from_home: reach_of(reach, f.id),
                    start_time: f.start_time,
                },
            )
        } else {
            before
        }
    }
}

/// The flights by the distance from home that they reached, the farthest
/// first.
pub open spec fn farthest_flights(flights: Seq<FlightMetadata>, reach: Seq<FlightReach>) -> Seq<
    TopDistanceFlight,
> {
    ranked(far_flights_upto(flights, reach, flights.len() as int))
}

/// No flight went farther than one that stands before it.
pub proof fn lemma_farthest_flights_descend(flights: Seq<FlightMetadata>, reach: Seq<FlightReach>)
    ensures
        forall|i: int, j: int|
            #![trigger farthest_flights(flights, reach)[j], farthest_flights(flights, reach)[i]]
            0 <= i <= j < farthest_flights(flights, reach).len() ==> farthest_flights(
                flights,
                reach,
            )[i].max_distance_from_home >= farthest_flights(
                flights,
                reach,
            )[j].max_distance_from_home,
{
    assert(ranks_are_ordered::<TopDistanceFlight>());
    lemma_ranked_descends(far_flights_upto(flights, reach, flights.len() as int));
}

/// The greatest distance from home that any flight reached, zero where no
/// flight counts.
pub open spec fn greatest_reach(rows: Seq<TopDistanceFlight>) -> i64 {
    if rows.len() > 0 {
        rows[0].max_distance_from_home
    } else {
        0
    }
}

/// Decides whether a flight counts among those that went far.
pub fn check_real_home(flight: &FlightMetadata) -> (r: bool)
    ensures
        r == has_real_home(*flight),
{
    match (flight.home_lat, flight.home_lon) {
        (None, _) => true,
        (Some(lat), None) => !(-GPS_EPSILON < lat && lat < GPS_EPSILON),
        (Some(lat), Some(lon)) => !(-GPS_EPSILON < lat && lat < GPS_EPSILON && -GPS_EPSILON < lon
            && lon < GPS_EPSILON),
    }
}

/// Looks up the distance that was measured for a flight.
pub fn find_reach(reach: &Vec<FlightReach>, flight_id: i64) -> (r: i64)
    ensures
        r == reach_of(reach@, flight_id),
{
    let mut found: Option<i64> = None;
    let mut i: usize = 0;
    while i < reach.len()
        invariant
            i <= reach.len(),
            found == measured_upto(reach@, flight_id, i as int),
        decreases reach.len() - i,
    {
        if found.is_none() && reach[i].flight_id == flight_id {
            found = Some(reach[i].distance);
        }
        i += 1;
    }
    match found {
        Some(d) => d,
        None => 0,
    }
}

/// Ranks the flights by the distance from home that they reached.
pub fn top_distance_flights(flights: &Vec<FlightMetadata>, reach: &Vec<FlightReach>) -> (out: Vec<
    TopDistanceFlight,
>)
    ensures
        out@ == farthest_flights(flights@, reach@),
{
    let mut rows: Vec<TopDistanceFlight> = Vec::new();
    let mut i: usize = 0;
    while i < flights.len()
        invariant
            i <= flights.len(),
            rows@ == far_flights_upto(flights@, reach@, i as int),
        decreases flights.len() - i,
    {
        if check_real_home(&flights[i]) {
            rows.push(
                TopDistanceFlight {
                    id: flights[i].id,
                    display_name: flights[i].display_name.clone(),
                    max_distance_from_home: find_reach(reach, flights[i].id),
                    start_time: flights[i].start_time,
                },
            );
        }
        i += 1;
    }
    rank_all(rows)
}

// ---------------------------------------------------------------------------
// Batteries
// ---------------------------------------------------------------------------

/// How often one battery flew, and for how long.
#[derive(Debug, Clone, PartialEq, Eq)]
pub struct BatteryUsage {
    pub battery_serial: String,
    pub flight_count: i64,
    pub total_duration_ms: i64,
}

impl Ranked for BatteryUsage {
    open spec fn above(&self, other: &Self) -> bool {
        self.flight_count > other.flight_count
    }

    fn outranks(&self, other: &Self) -> (r: bool) {
        self.flight_count > other.flight_count
    }
}

/// A sum of two numbers, held within the range of `i64`.
pub open spec fn held_sum(a: i64, b: i64) -> i64 {
    clamp_i64(a + b)
}

/// A text that is there and not empty.
pub open spec fn filled(text: Option<String>) -> Option<String> {
    match text {
        Some(t) => if t@.len() > 0 {
            Some(t)
        } else {
            None
        },
        None => None,
    }
}

/// The place of a battery among the first `n` rows.
pub open spec fn battery_at(rows: Seq<BatteryUsage>, serial: Seq<char>, n: int) -> Option<int>
    decreases n,
{
    if n <= 0 {
        None
    } else {
        match battery_at(rows, serial, n - 1) {
            Some(i) => Some(i),
            None => if rows[n - 1].battery_serial@ == serial {
                Some(n - 1)
            } else {
                None
            },
        }
    }
}

/// The rows with a flight counted: for its battery, where it names one.
/// A battery that has no row yet gets one behind the others.
pub open spec fn with_battery_of(rows: Seq<BatteryUsage>, flight: FlightMetadata) -> Seq<
    BatteryUsage,
> {
    match filled(flight.battery_serial) {
        None => rows,
        Some(serial) => match battery_at(rows, serial@, rows.len() as int) {
            Some(i) => rows.update(
                i,
                BatteryUsage {
                    battery_serial: rows[i].battery_serial,
                    flight_count: held_sum(rows[i].flight_count, 1),
                    total_duration_ms: held_sum(
                        rows[i].total_duration_ms,
                        value_or_zero(flight.duration_ms),
                    ),
                },
            ),
            None => rows.push(
                BatteryUsage {
                    battery_serial: serial,
                    flight_count: 1,
                    total_duration_ms: value_or_zero(flight.duration_ms),
                },
            ),
        },
    }
}

/// The batteries of the first `n` flights, in the order in which they
/// came up.
pub open spec fn batteries_upto(flights: Seq<FlightMetadata>, n: int) -> Seq<BatteryUsage>
    decreases n,
{
    if n <= 0 {
        Seq::empty()
    } else {
        with_battery_of(batteries_upto(flights, n - 1), flights[n - 1])
    }
}

/// The batteries of the flights, the one that flew most often first.
pub open spec fn batteries_used(flights: Seq<FlightMetadata>) -> Seq<BatteryUsage> {
    ranked(batteries_upto(flights, flights.len() as int))
}

/// No battery flew more often than one that stands before it.
pub proof fn lemma_batteries_descend(flights: Seq<FlightMetadata>)
    ensures
        forall|i: int, j: int|
            #![trigger batteries_used(flights)[j], batteries_used(flights)[i]]
            0 <= i <= j < batteries_used(flights).len() ==> batteries_used(flights)[i].flight_count
                >= batteries_used(flights)[j].flight_count,
{
    assert(ranks_are_ordered::<BatteryUsage>());
    lemma_ranked_descends(batteries_upto(flights, flights.len() as int));
}

/// Finds the row of a battery.
pub fn find_battery(rows: &Vec<BatteryUsage>, serial: &str) -> (r: Option<usize>)
    ensures
        match r {
            Some(i) => i < rows@.len() && battery_at(rows@, serial@, rows@.len() as int) == Some(
                i as int,
            ),
            None => battery_at(rows@, serial@, rows@.len() as int) is None,
        },
{
    let mut found: Option<usize> = None;
    let mut k: usize = 0;
    while k < rows.len()
        invariant
            k <= rows.len(),
            match found {
                Some(i) => i < k && battery_at(rows@, serial@, k as int) == Some(i as int),
                None => battery_at(rows@, serial@, k as int) is None,
            },
        decreases rows.len() - k,
    {
        if found.is_none() && is_text(rows[k].battery_serial.as_str(), serial) {
            found = Some(k);
        }
        k += 1;
    }
    found
}

/// The duration of a flight, zero where it has none.
fn duration_of(flight: &FlightMetadata) -> (r: i64)
    ensures
        r == value_or_zero(flight.duration_ms),
{
    match flight.duration_ms {
        Some(d) => d,
        None => 0,
    }
}

/// Counts the flights of each battery and adds up their durations.
pub fn battery_usage(flights: &Vec<FlightMetadata>) -> (out: Vec<BatteryUsage>)
    ensures
        out@ == batteries_used(flights@),
{
    let mut rows: Vec<BatteryUsage> = Vec::new();
    let mut i: usize = 0;
    while i < flights.len()
        invariant
            i <= flights.len(),
            rows@ == batteries_upto(flights@, i as int),
        decreases flights.len() - i,
    {
        match &flights[i].battery_serial {
            Some(serial) => {
                if !serial.as_str().is_empty() {
                    match find_battery(&rows, serial.as_str()) {
                        Some(at) => {
                            let row = BatteryUsage {
                                battery_serial: rows[at].battery_serial.clone(),
                                flight_count: add_clamped(rows[at].flight_count, 1),
                                total_duration_ms: add_clamped(
                                    rows[at].total_duration_ms,
                                    duration_of(&flights[i]),
                                ),
                            };
                            rows.set(at, row);
                        },
                        None => {
                            rows.push(
                                BatteryUsage {
                                    battery_serial: serial.clone(),
                                    flight_count: 1,
                                    total_duration_ms: duration_of(&flights[i]),
                                },
                            );
                        },
                    }
                }
            },
            None => {},
        }
        i += 1;
    }
    rank_all(rows)
}

// ---------------------------------------------------------------------------
// Aircraft
// ---------------------------------------------------------------------------

/// The flights of one aircraft, as they are counted: by the serial number
/// where the flights name one, by the model where they name none.
#[derive(Debug, Clone, PartialEq, Eq)]
pub struct DroneGroup {
    pub model: Option<String>,
    pub serial: Option<String>,
    pub aircraft_name: Option<String>,
    pub flight_count: i64,
}

impl Ranked for DroneGroup {
    open spec fn above(&self, other: &Self) -> bool {
        self.flight_count > other.flight_count
    }

    fn outranks(&self, other: &Self) -> (r: bool) {
        self.flight_count > other.flight_count
    }
}

/// What a row of the aircraft holds.
pub struct DroneRow {
    pub drone_model: Seq<char>,
    pub drone_serial: Option<Seq<char>>,
    pub aircraft_name: Option<Seq<char>>,
    pub flight_count: i64,
}

impl View for DroneUsage {
    type V = DroneRow;

    open spec fn view(&self) -> DroneRow {
        DroneRow {
            drone_model: self.drone_model@,
            drone_serial: text_of(self.drone_serial),
            aircraft_name: text_of(self.aircraft_name),
            flight_count: self.flight_count,
        }
    }
}

/// The later of two names in the order of texts, of those that are there.
pub open spec fn later_name(a: Option<String>, b: Option<String>) -> Option<String> {
    match (a, b) {
        (Some(x), Some(y)) => if precedes(x@, y@) {
            Some(y)
        } else {
            Some(x)
        },
        (Some(x), None) => Some(x),
        (None, y) => y,
    }
}

/// The group that a flight opens.
pub open spec fn opened_by(flight: FlightMetadata) -> DroneGroup {
    DroneGroup {
        model: flight.drone_model,
        serial: filled(flight.drone_serial),
        aircraft_name: flight.aircraft_name,
        flight_count: 1,
    }
}

/// A group of flights with one serial number, with a flight more: the
/// group shows the latest of their models and of their names in the order
/// of texts.
pub open spec fn joined_by_serial(group: DroneGroup, flight: FlightMetadata) -> DroneGroup {
    DroneGroup {
        model: later_name(group.model, flight.drone_model),
        serial: group.serial,
        aircraft_name: later_name(group.aircraft_name, flight.aircraft_name),
        flight_count: held_sum(group.flight_count, 1),
    }
}

/// A group of flights with one model and no serial number, with a flight
/// more.
pub open spec fn joined_by_model(group: DroneGroup, flight: FlightMetadata) -> DroneGroup {
    DroneGroup {
        model: group.model,
        serial: group.serial,
        aircraft_name: later_name(group.aircraft_name, flight.aircraft_name),
        flight_count: held_sum(group.flight_count, 1),
    }
}

/// The place of the group with a serial number among the first `n`.
pub open spec fn group_of_serial(groups: Seq<DroneGroup>, serial: Seq<char>, n: int) -> Option<int>
    decreases n,
{
    if n <= 0 {
        None
    } else {
        match group_of_serial(groups, serial, n - 1) {
            Some(i) => Some(i),
            None => if text_of(groups[n - 1].serial) == Some(serial) {
                Some(n - 1)
            } else {
                None
            },
        }
    }
}

/// The place of the group with a model, or with none, among the first `n`.
pub open spec fn group_of_model(groups: Seq<DroneGroup>, model: Option<Seq<char>>, n: int) -> Option<
    int,
>
    decreases n,
{
    if n <= 0 {
        None
    } else {
        match group_of_model(groups, model, n - 1) {
            Some(i) => Some(i),
            None => if text_of(groups[n - 1].model) == model {
                Some(n - 1)
            } else {
                None
            },
        }
    }
}

/// The groups by serial number of the first `n` flights, in the order in
/// which they came up.
pub open spec fn serial_groups_upto(flights: Seq<FlightMetadata>, n: int) -> Seq<DroneGroup>
    decreases n,
{
    if n <= 0 {
        Seq::empty()
    } else {
        let before = serial_groups_upto(flights, n - 1);
        let f = flights[n - 1];
        match filled(f.drone_serial) {
            Some(serial) => match group_of_serial(before, serial@, before.len() as int) {
                Some(i) => before.update(i, joined_by_serial(before[i], f)),
                None => before.push(opened_by(f)),
            },
            None => before,
        }
    }
}

/// The groups by model of those of the first `n` flights that name no
/// serial number, in the order in which they came up.
pub open spec fn model_groups_upto(flights: Seq<FlightMetadata>, n: int) -> Seq<DroneGroup>
    decreases n,
{
    if n <= 0 {
        Seq::empty()
    } else {
        let before = model_groups_upto(flights, n - 1);
        let f = flights[n - 1];
        match filled(f.drone_serial) {
            Some(_) => before,
            None => match group_of_model(before, text_of(f.drone_model), before.len() as int) {
                Some(i) => before.update(i, joined_by_model(before[i], f)),
                None => before.push(opened_by(f)),
            },
        }
    }
}

/// The groups of the flights: those by serial number, then those by
/// model.
pub open spec fn drone_groups(flights: Seq<FlightMetadata>) -> Seq<DroneGroup> {
    serial_groups_upto(flights, flights.len() as int) + model_groups_upto(
        flights,
        flights.len() as int,
    )
}

/// The row that shows a group. A group without a model is shown as
/// `Unknown`.
pub open spec fn shown_as(group: DroneGroup) -> DroneRow {
    DroneRow {
        drone_model: match group.model {
            Some(m) => m@,
            None => "Unknown"@,
        },
        drone_serial: text_of(group.serial),
        aircraft_name: text_of(group.aircraft_name),
        flight_count: group.flight_count,
    }
}

/// The aircraft of the flights, the one that flew most often first.
pub open spec fn drones_used(flights: Seq<FlightMetadata>) -> Seq<DroneRow> {
    Seq::new(
        ranked(drone_groups(flights)).len(),
        |i: int| shown_as(ranked(drone_groups(flights))[i]),
    )
}

/// No aircraft flew more often than one that stands before it.
pub proof fn lemma_drones_descend(flights: Seq<FlightMetadata>)
    ensures
        forall|i: int, j: int|
            #![trigger drones_used(flights)[j], drones_used(flights)[i]]
            0 <= i <= j < drones_used(flights).len() ==> drones_used(flights)[i].flight_count
                >= drones_used(flights)[j].flight_count,
{
    assert(ranks_are_ordered::<DroneGroup>());
    lemma_ranked_descends(drone_groups(flights));
    let groups = ranked(drone_groups(flights));
    assert forall|i: int, j: int|
        #![trigger drones_used(flights)[j], drones_used(flights)[i]]
        0 <= i <= j < drones_used(flights).len() implies drones_used(flights)[i].flight_count
        >= drones_used(flights)[j].flight_count by {
        assert(!groups[j].above(&groups[i]));
    }
}

/// What rows of the aircraft hold.
pub open spec fn drone_rows(rows: Seq<DroneUsage>) -> Seq<DroneRow> {
    Seq::new(rows.len(), |i: int| rows[i]@)
}

/// Picks the later of two names.
pub fn pick_later(a: &Option<String>, b: &Option<String>) -> (r: Option<String>)
    ensures
        r == later_name(*a, *b),
{
    match (a, b) {
        (Some(x), Some(y)) => if text_precedes(x.as_str(), y.as_str()) {
            Some(y.clone())
        } else {
            Some(x.clone())
        },
        (Some(x), None) => Some(x.clone()),
        (None, Some(y)) => Some(y.clone()),
        (None, None) => None,
    }
}

/// A copy of a text that is there and not empty.
pub fn copy_filled(text: &Option<String>) -> (r: Option<String>)
    ensures
        r == filled(*text),
{
    match text {
        Some(t) => if t.as_str().is_empty() {
            None
        } else {
            Some(t.clone())
        },
        None => None,
    }
}

/// A copy of a text.
fn copy_name(text: &Option<String>) -> (r: Option<String>)
    ensures
        r == *text,
{
    match text {
        Some(t) => Some(t.clone()),
        None => None,
    }
}

/// Finds the group with a serial number.
pub fn find_by_serial(groups: &Vec<DroneGroup>, serial: &str) -> (r: Option<usize>)
    ensures
        match r {
            Some(i) => i < groups@.len() && group_of_serial(
                groups@,
                serial@,
                groups@.len() as int,
            ) == Some(i as int),
            None => group_of_serial(groups@, serial@, groups@.len() as int) is None,
        },
{
    let mut found: Option<usize> = None;
    let mut k: usize = 0;
    while k < groups.len()
        invariant
            k <= groups.len(),
            match found {
                Some(i) => i < k && group_of_serial(groups@, serial@, k as int) == Some(i as int),
                None => group_of_serial(groups@, serial@, k as int) is None,
            },
        decreases groups.len() - k,
    {
        if found.is_none() {
            let same = match &groups[k].serial {
                Some(s) => is_text(s.as_str(), serial),
                None => false,
            };
            if same {
                found = Some(k);
            }
        }
        k += 1;
    }
    found
}

/// Decides whether two names are the same, or both are missing.
pub fn same_name(a: &Option<String>, b: &Option<String>) -> (r: bool)
    ensures
        r == (text_of(*a) == text_of(*b)),
{
    match (a, b) {
        (Some(x), Some(y)) => is_text(x.as_str(), y.as_str()),
        (None, None) => true,
        _ => false,
    }
}

/// Finds the group with a model, or with none.
pub fn find_by_model(groups: &Vec<DroneGroup>, model: &Option<String>) -> (r: Option<usize>)
    ensures
        match r {
            Some(i) => i < groups@.len() && group_of_model(
                groups@,
                text_of(*model),
                groups@.len() as int,
            ) == Some(i as int),
            None => group_of_model(groups@, text_of(*model), groups@.len() as int) is None,
        },
{
    let mut found: Option<usize> = None;
    let mut k: usize = 0;
    while k < groups.len()
        invariant
            k <= groups.len(),
            match found {
                Some(i) => i < k && group_of_model(groups@, text_of(*model), k as int) == Some(
                    i as int,
                ),
                None => group_of_model(groups@, text_of(*model), k as int) is None,
            },
        decreases groups.len() - k,
    {
        if found.is_none() && same_name(&groups[k].model, model) {
            found = Some(k);
        }
        k += 1;
    }
    found
}

/// The group that a flight opens.
fn open_group(flight: &FlightMetadata) -> (r: DroneGroup)
    ensures
        r == opened_by(*flight),
{
    DroneGroup {
        model: copy_name(&flight.drone_model),
        serial: copy_filled(&flight.drone_serial),
        aircraft_name: copy_name(&flight.aircraft_name),
        flight_count: 1,
    }
}

/// Shows a group as a row.
fn show_group(group: DroneGroup) -> (r: DroneUsage)
    ensures
        r@ == shown_as(group),
{
    let drone_model = match group.model {
        Some(m) => m,
        None => "Unknown".to_string(),
    };
    DroneUsage {
        drone_model,
        drone_serial: group.serial,
        aircraft_name: group.aircraft_name,
        flight_count: group.flight_count,
    }
}

/// Counts the flights of each aircraft.
pub fn drone_usage(flights: &Vec<FlightMetadata>) -> (out: Vec<DroneUsage>)
    ensures
        drone_rows(out@) == drones_used(flights@),
{
    let mut by_serial: Vec<DroneGroup> = Vec::new();
    let mut by_model: Vec<DroneGroup> = Vec::new();
    let mut i: usize = 0;
    while i < flights.len()
        invariant
            i <= flights.len(),
            by_serial@ == serial_groups_upto(flights@, i as int),
            by_model@ == model_groups_upto(flights@, i as int),
        decreases flights.len() - i,
    {
        let f = &flights[i];
        match copy_filled(&f.drone_serial) {
            Some(serial) => match find_by_serial(&by_serial, serial.as_str()) {
                Some(at) => {
                    let group = DroneGroup {
                        model: pick_later(&by_serial[at].model, &f.drone_model),
                        serial: copy_name(&by_serial[at].serial),
                        aircraft_name: pick_later(&by_serial[at].aircraft_name, &f.aircraft_name),
                        flight_count: add_clamped(by_serial[at].flight_count, 1),
                    };
                    by_serial.set(at, group);
                },
                None => {
                    by_serial.push(open_group(f));
                },
            },
            None => match find_by_model(&by_model, &f.drone_model) {
                Some(at) => {
                    let group = DroneGroup {
                        model: copy_name(&by_model[at].model),
                        serial: copy_name(&by_model[at].serial),
                        aircraft_name: pick_later(&by_model[at].aircraft_name, &f.aircraft_name),
                        flight_count: add_clamped(by_model[at].flight_count, 1),
                    };
                    by_model.set(at, group);
                },
                None => {
                    by_model.push(open_group(f));
                },
            },
        }
        i += 1;
    }
    by_serial.append(&mut by_model);
    assert(by_serial@ =~= drone_groups(flights@));
    let groups = rank_all(by_serial);
    let ghost order = groups@;
    let n = groups.len();
    let mut out: Vec<DroneUsage> = Vec::new();
    let mut k: usize = 0;
    for group in it: groups
        invariant
            it.seq() == order,
            k == it.index(),
            n == order.len(),
            drone_rows(out@) =~= Seq::new(k as nat, |j: int| shown_as(order[j])),
    {
        let row = show_group(group);
        proof {
            assert(drone_rows(out@.push(row)) =~= drone_rows(out@).push(row@));
        }
        out.push(row);
        k += 1;
    }
    assert(drone_rows(out@) =~= drones_used(flights@));
    out
}

// ---------------------------------------------------------------------------
// Flights by day
// ---------------------------------------------------------------------------

/// The length of a day in microseconds.
pub const MICROS_PER_DAY: i64 = 86_400_000_000;

/// The number of days back from today over which flights are counted by
/// day.
pub const ACTIVITY_DAYS: i64 = 365;

/// The flights that started on one day.
#[derive(Debug, Clone, Copy, PartialEq, Eq)]
pub struct DayCount {
    /// The number of the day, counted from the day of the epoch, UTC.
    pub day: i64,
    /// The start of the first of the flights.
    pub first_start: i64,
    pub count: i64,
}

impl Timed for DayCount {
    open spec fn time(&self) -> i64 {
        self.day
    }

    fn timestamp(&self) -> (t: i64) {
        self.day
    }
}

/// What a row of the flights by day holds.
pub struct DateRow {
    pub date: Seq<char>,
    pub count: i64,
}

impl View for FlightDateCount {
    type V = DateRow;

    open spec fn view(&self) -> DateRow {
        DateRow { date: self.date@, count: self.count }
    }
}

/// The number of the day, UTC, in which an instant falls.
pub open spec fn day_of(instant: i64) -> int {
    instant as int / MICROS_PER_DAY as int
}

/// True when a flight that started at `start` is counted by day: it
/// started no more than [`ACTIVITY_DAYS`] days before the day of `now`.
pub open spec fn is_recent(start: i64, now: i64) -> bool {
    day_of(start) >= day_of(now) - ACTIVITY_DAYS
}

/// The place of a day among the first `n` rows.
pub open spec fn day_at(rows: Seq<DayCount>, day: int, n: int) -> Option<int>
    decreases n,
{
    if n <= 0 {
        None
    } else {
        match day_at(rows, day, n - 1) {
            Some(i) => Some(i),
            None => if rows[n - 1].day == day {
                Some(n - 1)
            } else {
                None
            },
        }
    }
}

/// The rows with a flight counted that started at `start`.
pub open spec fn with_start(rows: Seq<DayCount>, start: i64) -> Seq<DayCount> {
    match day_at(rows, day_of(start), rows.len() as int) {
        Some(i) => rows.update(
            i,
            DayCount {
                day: rows[i].day,
                first_start: rows[i].first_start,
                count: held_sum(rows[i].count, 1),
            },
        ),
        None => rows.push(DayCount { day: day_of(start) as i64, first_start: start, count: 1 }),
    }
}

/// The days of the first `n` flights, in the order in which they came up.
pub open spec fn days_upto(flights: Seq<FlightMetadata>, now: i64, n: int) -> Seq<DayCount>
    decreases n,
{
    if n <= 0 {
        Seq::empty()
    } else {
        let before = days_upto(flights, now, n - 1);
        match flights[n - 1].start_time {
            Some(start) => if is_recent(start, now) {
                with_start(before, start)
            } else {
                before
            },
            None => before,
        }
    }
}

/// The days on which flights started, the earliest first.
pub open spec fn active_days(flights: Seq<FlightMetadata>, now: i64) -> Seq<DayCount> {
    stable_sorted(days_upto(flights, now, flights.len() as int))
}

/// The rows of the first `n` days: a day that the calendar does not reach
/// has none.
pub open spec fn dated_upto(days: Seq<DayCount>, n: int) -> Seq<DateRow>
    decreases n,
{
    if n <= 0 {
        Seq::empty()
    } else {
        let before = dated_upto(days, n - 1);
        match date_text(days[n - 1].first_start) {
            Some(date) => before.push(DateRow { date, count: days[n - 1].count }),
            None => before,
        }
    }
}

/// The flights by day: for each day of the last [`ACTIVITY_DAYS`] on which
/// a flight started its date and the number of flights, the earliest day
/// first.
pub open spec fn flights_by_day(flights: Seq<FlightMetadata>, now: i64) -> Seq<DateRow> {
    dated_upto(active_days(flights, now), active_days(flights, now).len() as int)
}

/// What rows of the flights by day hold.
pub open spec fn date_rows(rows: Seq<FlightDateCount>) -> Seq<DateRow> {
    Seq::new(rows.len(), |i: int| rows[i]@)
}

/// Finds the row of a day.
pub fn find_day(rows: &Vec<DayCount>, day: i64) -> (r: Option<usize>)
    ensures
        match r {
            Some(i) => i < rows@.len() && day_at(rows@, day as int, rows@.len() as int) == Some(
                i as int,
            ),
            None => day_at(rows@, day as int, rows@.len() as int) is None,
        },
{
    let mut found: Option<usize> = None;
    let mut k: usize = 0;
    while k < rows.len()
        invariant
            k <= rows.len(),
            match found {
                Some(i) => i < k && day_at(rows@, day as int, k as int) == Some(i as int),
                None => day_at(rows@, day as int, k as int) is None,
            },
        decreases rows.len() - k,
    {
        if found.is_none() && rows[k].day == day {
            found = Some(k);
        }
        k += 1;
    }
    found
}

/// Counts the flights of the last [`ACTIVITY_DAYS`] days by the day on
/// which they started.
pub fn count_by_day(flights: &Vec<FlightMetadata>, now: i64) -> (out: Vec<DayCount>)
    ensures
        out@ == active_days(flights@, now),
{
    let today = floor_div(now, MICROS_PER_DAY);
    let mut rows: Vec<DayCount> = Vec::new();
    let mut i: usize = 0;
    while i < flights.len()
        invariant
            i <= flights.len(),
            today == day_of(now),
            rows@ == days_upto(flights@, now, i as int),
        decreases flights.len() - i,
    {
        match flights[i].start_time {
            Some(start) => {
                let day = floor_div(start, MICROS_PER_DAY);
                if day >= today - ACTIVITY_DAYS {
                    match find_day(&rows, day) {
                        Some(at) => {
                            let row = DayCount {
                                day: rows[at].day,
                                first_start: rows[at].first_start,
                                count: add_clamped(rows[at].count, 1),
                            };
                            rows.set(at, row);
                        },
                        None => {
                            rows.push(DayCount { day, first_start: start, count: 1 });
                        },
                    }
                }
            },
            None => {},
        }
        i += 1;
    }
    order_by_time(rows)
}

/// Writes the date of each day beside its count.
pub fn flights_by_date(flights: &Vec<FlightMetadata>, now: i64) -> (out: Vec<FlightDateCount>)
    ensures
        date_rows(out@) == flights_by_day(flights@, now),
{
    let days = count_by_day(flights, now);
    let mut out: Vec<FlightDateCount> = Vec::new();
    let mut i: usize = 0;
    assert(date_rows(out@) =~= dated_upto(days@, 0));
    while i < days.len()
        invariant
            i <= days.len(),
            date_rows(out@) == dated_upto(days@, i as int),
        decreases days.len() - i,
    {
        match format_date(days[i].first_start) {
            Some(date) => {
                let row = FlightDateCount { date, count: days[i].count };
                proof {
                    assert(date_rows(out@.push(row)) =~= date_rows(out@).push(row@));
                }
                out.push(row);
            },
            None => {},
        }
        i += 1;
    }
    out
}

// ---------------------------------------------------------------------------
// The drain of batteries
// ---------------------------------------------------------------------------

/// The number by which a rate per millisecond is a rate per minute in
/// thousandths.
pub const MILLI_PER_MINUTE: i64 = 60_000_000;

/// How far a flight drained its battery.
#[derive(Debug, Clone, PartialEq, Eq)]
pub struct BatteryHealthPoint {
    pub flight_id: i64,
    pub battery_serial: String,
    pub start_time: Option<i64>,
    /// The duration of the flight, zero where it has none above zero.
    pub duration_ms: i64,
    /// The highest charge of the flight less the lowest, in percent.
    pub delta_percent: i64,
    /// The drain in thousandths of a percent for each minute, rounded
    /// towards zero; zero for a flight without a duration.
    pub rate_per_min: i64,
}

impl Timed for BatteryHealthPoint {
    /// The start of the flight; a flight without one counts as the latest.
    open spec fn time(&self) -> i64 {
        match self.start_time {
            Some(t) => t,
            None => i64::MAX,
        }
    }

    fn timestamp(&self) -> (t: i64) {
        match self.start_time {
            Some(t) => t,
            None => i64::MAX,
        }
    }
}

/// The lowest and the highest charge among the first `n` points that are
/// points of the flight and have a charge.
pub open spec fn charge_span_upto(telemetry: Seq<StoredPoint>, flight_id: i64, n: int) -> Option<
    (i32, i32),
>
    decreases n,
{
    if n <= 0 {
        None
    } else {
        let before = charge_span_upto(telemetry, flight_id, n - 1);
        let row = telemetry[n - 1];
        if row.flight_id != flight_id {
            before
        } else {
            match (before, row.point.battery_percent) {
                (Some((low, high)), Some(c)) => Some(
                    (
                        if c < low {
                            c
                        } else {
                            low
                        },
                        if c > high {
                            c
                        } else {
                            high
                        },
                    ),
                ),
                (None, Some(c)) => Some((c, c)),
                (span, None) => span,
            }
        }
    }
}

/// The lowest and the highest charge of a flight.
pub open spec fn charge_span(telemetry: Seq<StoredPoint>, flight_id: i64) -> Option<(i32, i32)> {
    charge_span_upto(telemetry, flight_id, telemetry.len() as int)
}

/// The drain in thousandths of a percent for each minute.
pub open spec fn drain_rate(delta_percent: int, duration_ms: int) -> int {
    if duration_ms > 0 {
        delta_percent * MILLI_PER_MINUTE / duration_ms
    } else {
        0
    }
}

/// The drain of a flight with a battery and charges from `low` to `high`.
pub open spec fn drain_of(flight: FlightMetadata, serial: String, low: i32, high: i32) -> BatteryHealthPoint {
    BatteryHealthPoint {
        flight_id: flight.id,
        battery_serial: serial,
        start_time: flight.start_time,
        duration_ms: positive_or_zero(flight.duration_ms),
        delta_percent: (high - low) as i64,
        rate_per_min: drain_rate(high - low, positive_or_zero(flight.duration_ms) as int) as i64,
    }
}

/// The drains of the first `n` flights: of each that names a battery and
/// has a point with a charge, in the order of the flights.
pub open spec fn drains_upto(
    flights: Seq<FlightMetadata>,
    telemetry: Seq<StoredPoint>,
    n: int,
) -> Seq<BatteryHealthPoint>
    decreases n,
{
    if n <= 0 {
        Seq::empty()
    } else {
        let before = drains_upto(flights, telemetry, n - 1);
        let f = flights[n - 1];
        match (filled(f.battery_serial), charge_span(telemetry, f.id)) {
            (Some(serial), Some((low, high))) => before.push(drain_of(f, serial, low, high)),
            _ => before,
        }
    }
}

/// The drains of the flights in the order of their starts, those without a
/// start last.
pub open spec fn battery_health(flights: Seq<FlightMetadata>, telemetry: Seq<StoredPoint>) -> Seq<
    BatteryHealthPoint,
> {
    stable_sorted(drains_upto(flights, telemetry, flights.len() as int))
}

/// The lowest charge among the first `n` points is no higher than the
/// highest.
pub proof fn lemma_charge_span(telemetry: Seq<StoredPoint>, flight_id: i64, n: int)
    requires
        n <= telemetry.len(),
    ensures
        charge_span_upto(telemetry, flight_id, n) matches Some(span) ==> span.0 <= span.1,
    decreases n,
{
    if n > 0 {
        lemma_charge_span(telemetry, flight_id, n - 1);
    }
}

/// Finds the lowest and the highest charge of a flight.
pub fn find_charge_span(telemetry: &Vec<StoredPoint>, flight_id: i64) -> (r: Option<(i32, i32)>)
    ensures
        r == charge_span(telemetry@, flight_id),
        r matches Some(span) ==> span.0 <= span.1,
{
    let mut span: Option<(i32, i32)> = None;
    let mut i: usize = 0;
    while i < telemetry.len()
        invariant
            i <= telemetry.len(),
            span == charge_span_upto(telemetry@, flight_id, i as int),
        decreases telemetry.len() - i,
    {
        if telemetry[i].flight_id == flight_id {
            match (span, telemetry[i].point.battery_percent) {
                (Some((low, high)), Some(c)) => {
                    let lower = if c < low {
                        c
                    } else {
                        low
                    };
                    let higher = if c > high {
                        c
                    } else {
                        high
                    };
                    span = Some((lower, higher));
                },
                (None, Some(c)) => {
                    span = Some((c, c));
                },
                _ => {},
            }
        }
        i += 1;
    }
    proof {
        lemma_charge_span(telemetry@, flight_id, telemetry@.len() as int);
    }
    span
}

/// Works out the drain of a flight.
pub fn compute_drain(flight: &FlightMetadata, serial: String, low: i32, high: i32) -> (r:
    BatteryHealthPoint)
    requires
        low <= high,
    ensures
        r == drain_of(*flight, serial, low, high),
{
    let duration_ms = match flight.duration_ms {
        Some(d) => if d > 0 {
            d
        } else {
            0
        },
        None => 0,
    };
    let delta: i64 = high as i64 - low as i64;
    let rate: i64 = if duration_ms > 0 {
        assert(delta * MILLI_PER_MINUTE <= 0xffff_ffff * 60_000_000) by (nonlinear_arith)
            requires
                0 <= delta <= 0xffff_ffff,
        ;
        assert(0 <= delta * MILLI_PER_MINUTE) by (nonlinear_arith)
            requires
                0 <= delta,
        ;
        assert(0 <= (delta * MILLI_PER_MINUTE) / (duration_ms as int) <= delta * MILLI_PER_MINUTE)
            by (nonlinear_arith)
            requires
                0 <= delta * MILLI_PER_MINUTE,
                duration_ms > 0,
        ;
        delta * MILLI_PER_MINUTE / duration_ms
    } else {
        0
    };
    BatteryHealthPoint {
        flight_id: flight.id,
        battery_serial: serial,
        start_time: flight.start_time,
        duration_ms,
        delta_percent: delta,
        rate_per_min: rate,
    }
}

/// Works out how far each flight drained its battery.
pub fn battery_health_points(flights: &Vec<FlightMetadata>, telemetry: &Vec<StoredPoint>) -> (out:
    Vec<BatteryHealthPoint>)
    ensures
        out@ == battery_health(flights@, telemetry@),
{
    let mut rows: Vec<BatteryHealthPoint> = Vec::new();
    let mut i: usize = 0;
    while i < flights.len()
        invariant
            i <= flights.len(),
            rows@ == drains_upto(flights@, telemetry@, i as int),
        decreases flights.len() - i,
    {
        match copy_filled(&flights[i].battery_serial) {
            Some(serial) => match find_charge_span(telemetry, flights[i].id) {
                Some((low, high)) => {
                    rows.push(compute_drain(&flights[i], serial, low, high));
                },
                None => {},
            },
            None => {},
        }
        i += 1;
    }
    order_by_time(rows)
}

// ---------------------------------------------------------------------------
// All figures
// ---------------------------------------------------------------------------

/// The figures over all flights.
#[derive(Debug, Clone, PartialEq, Eq)]
pub struct OverviewStats {
    pub total_flights: i64,
    pub total_distance: i64,
    pub total_duration_ms: i64,
    pub total_points: i64,
    pub total_photos: i64,
    pub total_videos: i64,
    pub max_altitude: i64,
    pub max_distance_from_home: i64,
    pub batteries_used: Vec<BatteryUsage>,
    pub drones_used: Vec<DroneUsage>,
    pub flights_by_date: Vec<FlightDateCount>,
    pub top_flights: Vec<TopFlight>,
    pub top_distance_flights: Vec<TopDistanceFlight>,
    pub battery_health_points: Vec<BatteryHealthPoint>,
}

impl Database {
    /// The figures over all flights of the store. `now` is the instant at
    /// which they are asked for; `reach` holds for each flight the greatest
    /// distance from home that was measured on its telemetry.
    pub fn get_overview_stats(&self, now: i64, reach: &Vec<FlightReach>) -> (stats: OverviewStats)
        ensures
            stats.total_flights == clamp_i64(self.flights@.len() as int),
            stats.total_distance == total_length(shares(self.flights@, Summed::Distance)),
            stats.total_duration_ms == total_length(shares(self.flights@, Summed::Duration)),
            stats.total_points == total_length(shares(self.flights@, Summed::Points)),
            stats.total_photos == total_length(shares(self.flights@, Summed::Photos)),
            stats.total_videos == total_length(shares(self.flights@, Summed::Videos)),
            stats.max_altitude == value_or_zero(max_present(heights(self.flights@))),
            stats.max_distance_from_home == greatest_reach(
                farthest_flights(self.flights@, reach@),
            ),
            stats.batteries_used@ == batteries_used(self.flights@),
            drone_rows(stats.drones_used@) == drones_used(self.flights@),
            date_rows(stats.flights_by_date@) == flights_by_day(self.flights@, now),
            stats.top_flights@ == longest_flights(self.flights@),
            stats.top_distance_flights@ == farthest_flights(self.flights@, reach@),
            stats.battery_health_points@ == battery_health(self.flights@, self.telemetry@),
    {
        let count: u64 = self.flights.len() as u64;
        let total_flights: i64 = if count > 0x7fff_ffff_ffff_ffff {
            i64::MAX
        } else {
            count as i64
        };
        let farthest = top_distance_flights(&self.flights, reach);
        let max_distance_from_home = if farthest.len() > 0 {
            farthest[0].max_distance_from_home
        } else {
            0
        };
        OverviewStats {
            total_flights,
            total_distance: sum_over(&self.flights, Summed::Distance),
            total_duration_ms: sum_over(&self.flights, Summed::Duration),
            total_points: sum_over(&self.flights, Summed::Points),
            total_photos: sum_over(&self.flights, Summed::Photos),
            total_videos: sum_over(&self.flights, Summed::Videos),
            max_altitude: greatest_height(&self.flights),
            max_distance_from_home,
            batteries_used: battery_usage(&self.flights),
            drones_used: drone_usage(&self.flights),
            flights_by_date: flights_by_date(&self.flights, now),
            top_flights: top_flights(&self.flights),
            top_distance_flights: farthest,
            battery_health_points: battery_health_points(&self.flights, &self.telemetry),
        }
    }
}

} // verus!
