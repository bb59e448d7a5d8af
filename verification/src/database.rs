//! The store of flights, held in memory.
//!
//! The store has seven tables: flights, telemetry, tags, notes, messages,
//! names of equipment and settings. No two flights have one id, and no two
//! points of one flight have one time. The rules of the logbook are the methods: what a bulk
//! load accepts, what a deletion takes along, which of two duplicates
//! stays, how the telemetry of a flight is served. Keeping the tables on
//! disk is left to the program around the library.

use std::collections::HashSet;
use vstd::prelude::*;
use vstd::std_specs::hash::group_hash_axioms;
use crate::dedup::{
    deduplicated,
    has_id,
    ids_unique,
    lemma_deduplication_is_idempotent,
    lemma_select_keeps_ids_unique,
    remove_duplicates,
};
use crate::downsample::{bucket_size, is_downsampled, point_limit, serve, serves_raw};
use crate::models::{
    text_of, FlightMessage, FlightMetadata, FlightTag, TelemetryPoint, TelemetryRecord,
};
use crate::ordering::Timed;
use crate::ordering::{
    is_ordered, is_strictly_ordered, lemma_stable_sorted_is_strict, order_by_time, stable_sorted,
    times_distinct,
};
use crate::ranking::{lemma_ranked_descends, rank_all, ranked, ranks_are_ordered, Ranked};
use crate::series::{cells_of, copy_cells};
use crate::table::{
    kept_indices, lemma_kept_indices, lemma_select_members, retain_flagged, select,
};
use crate::tags::{has_text, is_text};
use crate::text::{
    chars_of, is_blank, lemma_precedes_between, lemma_precedes_one_way, precedes, string_of,
    text_precedes, texts, trim, trimmed,
};

verus! {

broadcast use group_hash_axioms;

/// Why the store refused.
#[derive(Debug, Clone, PartialEq, Eq)]
pub enum DatabaseError {
    /// The store found fault: a key that is there already, or a fault of
    /// the engine beneath.
    Store(String),
    /// There is no flight with this id.
    FlightNotFound(i64),
}

/// One row of the telemetry table.
#[derive(Debug, Clone, PartialEq, Eq)]
pub struct StoredPoint {
    pub flight_id: i64,
    pub point: TelemetryPoint,
}

/// One row of the tag table.
#[derive(Debug, Clone, PartialEq, Eq)]
pub struct StoredTag {
    pub flight_id: i64,
    pub tag: String,
    /// `auto` or `manual`.
    pub tag_type: String,
}

/// One row of the table of notes.
#[derive(Debug, Clone, PartialEq, Eq)]
pub struct StoredNote {
    pub flight_id: i64,
    pub notes: String,
}

/// One row of the table of messages.
#[derive(Debug, Clone, PartialEq, Eq)]
pub struct StoredMessage {
    pub flight_id: i64,
    pub message: FlightMessage,
}

/// One row of the settings table.
#[derive(Debug, Clone, PartialEq, Eq)]
pub struct Setting {
    pub key: String,
    pub value: String,
}

/// The name that a user gave to a battery or to an aircraft.
/// `equipment_type` is `"battery"` or `"aircraft"`.
#[derive(Debug, Clone, PartialEq, Eq)]
pub struct EquipmentName {
    pub serial: String,
    pub equipment_type: String,
    pub display_name: String,
}

/// The number of ids that flights can have: an id has twelve digits at
/// the most.
pub const FLIGHT_ID_SPAN: u64 = 1_000_000_000_000;

/// The store.
#[derive(Debug, Clone, PartialEq, Eq)]
pub struct Database {
    pub flights: Vec<FlightMetadata>,
    pub telemetry: Vec<StoredPoint>,
    pub tags: Vec<StoredTag>,
    pub notes: Vec<StoredNote>,
    pub messages: Vec<StoredMessage>,
    pub equipment: Vec<EquipmentName>,
    pub settings: Vec<Setting>,
}

/// True when no two points have one flight and one time.
pub open spec fn keys_unique(telemetry: Seq<StoredPoint>) -> bool {
    forall|i: int, j: int|
        0 <= i < telemetry.len() && 0 <= j < telemetry.len() && i != j ==> !((
        #[trigger] telemetry[i]).flight_id == (#[trigger] telemetry[j]).flight_id
            && telemetry[i].point.timestamp_ms == telemetry[j].point.timestamp_ms)
}

/// True when the flight has a point at the time.
pub open spec fn has_point(telemetry: Seq<StoredPoint>, flight_id: i64, time: i64) -> bool {
    exists|i: int|
        0 <= i < telemetry.len() && (#[trigger] telemetry[i]).flight_id == flight_id
            && telemetry[i].point.timestamp_ms == time
}

/// The table after the first `n` points of a batch are loaded for a
/// flight: a point goes in unless the flight has a point at its time
/// already.
pub open spec fn loaded_upto(
    telemetry: Seq<StoredPoint>,
    flight_id: i64,
    points: Seq<TelemetryPoint>,
    n: int,
) -> Seq<StoredPoint>
    decreases n,
{
    if n <= 0 {
        telemetry
    } else {
        let before = loaded_upto(telemetry, flight_id, points, n - 1);
        if has_point(before, flight_id, points[n - 1].timestamp_ms) {
            before
        } else {
            before.push(StoredPoint { flight_id, point: points[n - 1] })
        }
    }
}

/// The table after a batch is loaded for a flight.
pub open spec fn loaded(telemetry: Seq<StoredPoint>, flight_id: i64, points: Seq<TelemetryPoint>) -> Seq<
    StoredPoint,
> {
    loaded_upto(telemetry, flight_id, points, points.len() as int)
}

/// Which rows of the telemetry table belong to flights that are there.
pub open spec fn point_has_flight(telemetry: Seq<StoredPoint>, flights: Seq<FlightMetadata>) -> Seq<
    bool,
> {
    Seq::new(telemetry.len(), |i: int| has_id(flights, telemetry[i].flight_id))
}

/// Which rows of the tag table belong to flights that are there.
pub open spec fn tag_has_flight(tags: Seq<StoredTag>, flights: Seq<FlightMetadata>) -> Seq<bool> {
    Seq::new(tags.len(), |i: int| has_id(flights, tags[i].flight_id))
}

/// Which rows of the telemetry table do not belong to the flight.
pub open spec fn point_not_of(telemetry: Seq<StoredPoint>, flight_id: i64) -> Seq<bool> {
    Seq::new(telemetry.len(), |i: int| telemetry[i].flight_id != flight_id)
}

/// Which rows of the tag table do not belong to the flight.
pub open spec fn tag_not_of(tags: Seq<StoredTag>, flight_id: i64) -> Seq<bool> {
    Seq::new(tags.len(), |i: int| tags[i].flight_id != flight_id)
}

/// Which rows of the table of notes do not belong to the flight.
pub open spec fn note_not_of(notes: Seq<StoredNote>, flight_id: i64) -> Seq<bool> {
    Seq::new(notes.len(), |i: int| notes[i].flight_id != flight_id)
}

/// Which rows of the table of messages do not belong to the flight.
pub open spec fn message_not_of(messages: Seq<StoredMessage>, flight_id: i64) -> Seq<bool> {
    Seq::new(messages.len(), |i: int| messages[i].flight_id != flight_id)
}

/// Which rows of the table of messages belong to flights that are there.
pub open spec fn message_has_flight(
    messages: Seq<StoredMessage>,
    flights: Seq<FlightMetadata>,
) -> Seq<bool> {
    Seq::new(messages.len(), |i: int| has_id(flights, messages[i].flight_id))
}

/// Which flights do not have the id.
pub open spec fn flight_not(flights: Seq<FlightMetadata>, flight_id: i64) -> Seq<bool> {
    Seq::new(flights.len(), |i: int| flights[i].id != flight_id)
}

/// True when some flight states the hash.
pub open spec fn has_hash(flights: Seq<FlightMetadata>, hash: Seq<char>) -> bool {
    exists|i: int|
        0 <= i < flights.len() && text_of((#[trigger] flights[i]).file_hash) == Some(hash)
}

/// A selection of points with unique keys has unique keys.
pub proof fn lemma_select_keeps_keys_unique(telemetry: Seq<StoredPoint>, keep: Seq<bool>)
    requires
        telemetry.len() == keep.len(),
        keys_unique(telemetry),
    ensures
        keys_unique(select(telemetry, keep)),
{
    lemma_select_members(telemetry, keep);
    lemma_kept_indices(keep, telemetry.len() as int);
    let s = select(telemetry, keep);
    let indices = kept_indices(keep, telemetry.len() as int);
    assert forall|i: int, j: int| 0 <= i < s.len() && 0 <= j < s.len() && i != j implies !((
    #[trigger] s[i]).flight_id == (#[trigger] s[j]).flight_id && s[i].point.timestamp_ms
        == s[j].point.timestamp_ms) by {
        if i < j {
            assert(indices[i] < indices[j]);
        } else {
            assert(indices[j] < indices[i]);
        }
        assert(s[i] == telemetry[indices[i]]);
        assert(s[j] == telemetry[indices[j]]);
    }
}

/// Loading a batch keeps the keys unique.
pub proof fn lemma_loaded_keeps_keys_unique(
    telemetry: Seq<StoredPoint>,
    flight_id: i64,
    points: Seq<TelemetryPoint>,
    n: int,
)
    requires
        keys_unique(telemetry),
        0 <= n <= points.len(),
    ensures
        keys_unique(loaded_upto(telemetry, flight_id, points, n)),
        loaded_upto(telemetry, flight_id, points, n).len() >= telemetry.len(),
        loaded_upto(telemetry, flight_id, points, n).len() <= telemetry.len() + n,
    decreases n,
{
    if n > 0 {
        lemma_loaded_keeps_keys_unique(telemetry, flight_id, points, n - 1);
        let before = loaded_upto(telemetry, flight_id, points, n - 1);
        let now = loaded_upto(telemetry, flight_id, points, n);
        if !has_point(before, flight_id, points[n - 1].timestamp_ms) {
            assert forall|i: int, j: int|
                0 <= i < now.len() && 0 <= j < now.len() && i != j implies !((
            #[trigger] now[i]).flight_id == (#[trigger] now[j]).flight_id
                && now[i].point.timestamp_ms == now[j].point.timestamp_ms) by {
                if i < before.len() && j < before.len() {
                    assert(now[i] == before[i] && now[j] == before[j]);
                } else if i < before.len() {
                    assert(now[i] == before[i]);
                } else {
                    assert(now[j] == before[j]);
                }
            }
        }
    }
}

impl Database {
    /// True when the store keeps its word: no two flights have one id, no
    /// two points of one flight have one time.
    pub open spec fn well_formed(&self) -> bool {
        ids_unique(self.flights@) && keys_unique(self.telemetry@)
    }

    /// True when every point and every tag belongs to a flight that is
    /// there.
    pub open spec fn has_no_orphans(&self) -> bool {
        &&& forall|i: int|
            0 <= i < self.telemetry@.len() ==> has_id(
                self.flights@,
                (#[trigger] self.telemetry@[i]).flight_id,
            )
        &&& forall|i: int|
            0 <= i < self.tags@.len() ==> has_id(self.flights@, (#[trigger] self.tags@[i]).flight_id)
    }

    /// The id of a flight that is made at `millis` milliseconds since the
    /// Unix epoch: the milliseconds, cut to twelve digits.
    pub fn generate_flight_id(millis: u64) -> (id: i64)
        ensures
            id == millis % FLIGHT_ID_SPAN,
    {
        (millis % FLIGHT_ID_SPAN) as i64
    }

    /// An empty store.
    pub fn new() -> (db: Database)
        ensures
            db.well_formed(),
            db.flights@.len() == 0,
            db.telemetry@.len() == 0,
            db.tags@.len() == 0,
            db.notes@.len() == 0,
            db.messages@.len() == 0,
            db.equipment@.len() == 0,
            db.settings@.len() == 0,
    {
        Database {
            flights: Vec::new(),
            telemetry: Vec::new(),
            tags: Vec::new(),
            notes: Vec::new(),
            messages: Vec::new(),
            equipment: Vec::new(),
            settings: Vec::new(),
        }
    }

    /// Says whether the tables keep the store's word.
    pub fn check_well_formed(&self) -> (r: bool)
        ensures
            r == self.well_formed(),
    {
        let mut i: usize = 0;
        while i < self.flights.len()
            invariant
                i <= self.flights.len(),
                forall|a: int, b: int|
                    0 <= a < i && 0 <= b < self.flights@.len() && a != b ==> (
                    #[trigger] self.flights@[a]).id != (#[trigger] self.flights@[b]).id,
            decreases self.flights.len() - i,
        {
            let mut j: usize = 0;
            while j < self.flights.len()
                invariant
                    j <= self.flights.len(),
                    i < self.flights.len(),
                    forall|b: int|
                        0 <= b < j && i != b ==> self.flights@[i as int].id != (
                        #[trigger] self.flights@[b]).id,
                decreases self.flights.len() - j,
            {
                if i != j && self.flights[i].id == self.flights[j].id {
                    return false;
                }
                j += 1;
            }
            i += 1;
        }
        assert(ids_unique(self.flights@));
        let mut k: usize = 0;
        while k < self.telemetry.len()
            invariant
                k <= self.telemetry.len(),
                ids_unique(self.flights@),
                forall|a: int, b: int|
                    0 <= a < k && 0 <= b < self.telemetry@.len() && a != b ==> !((
                    #[trigger] self.telemetry@[a]).flight_id == (
                    #[trigger] self.telemetry@[b]).flight_id
                        && self.telemetry@[a].point.timestamp_ms
                        == self.telemetry@[b].point.timestamp_ms),
            decreases self.telemetry.len() - k,
        {
            let mut m: usize = 0;
            while m < self.telemetry.len()
                invariant
                    m <= self.telemetry.len(),
                    k < self.telemetry.len(),
                    forall|b: int|
                        0 <= b < m && k != b ==> !(self.telemetry@[k as int].flight_id == (
                        #[trigger] self.telemetry@[b]).flight_id
                            && self.telemetry@[k as int].point.timestamp_ms
                            == self.telemetry@[b].point.timestamp_ms),
                decreases self.telemetry.len() - m,
            {
                if k != m && self.telemetry[k].flight_id == self.telemetry[m].flight_id
                    && self.telemetry[k].point.timestamp_ms
                    == self.telemetry[m].point.timestamp_ms {
                    return false;
                }
                m += 1;
            }
            k += 1;
        }
        true
    }
}

/// The name under which a flight is shown.
pub open spec fn shown_name(flight: FlightMetadata) -> Seq<char> {
    flight.display_name@
}

/// True when the text is there and is the given one.
pub open spec fn states(text: Option<String>, wanted: Seq<char>) -> bool {
    text is Some && text->0@ == wanted
}

/// True when the text is missing or empty.
pub open spec fn is_unstated(text: Option<String>) -> bool {
    text is None || text->0@.len() == 0
}

/// True when a stored flight is the same flight as one with the given
/// signature. A signature without the serial of the battery matches the
/// flights that state none.
pub open spec fn matches_signature(
    flight: FlightMetadata,
    drone_serial: Seq<char>,
    battery_serial: Option<Seq<char>>,
    start_time: i64,
) -> bool {
    &&& states(flight.drone_serial, drone_serial)
    &&& flight.start_time == Some(start_time)
    &&& match battery_serial {
        Some(b) => if b.len() > 0 {
            states(flight.battery_serial, b)
        } else {
            is_unstated(flight.battery_serial)
        },
        None => is_unstated(flight.battery_serial),
    }
}

/// The text that an optional string slice holds.
pub open spec fn str_view(text: Option<&str>) -> Option<Seq<char>> {
    match text {
        Some(t) => Some(t@),
        None => None,
    }
}

/// The name of the first flight from `from` on that states the hash.
pub open spec fn first_with_hash(flights: Seq<FlightMetadata>, hash: Seq<char>, from: int) -> Option<
    Seq<char>,
>
    decreases flights.len() - from,
{
    if from < 0 || from >= flights.len() {
        None
    } else if states(flights[from].file_hash, hash) {
        Some(shown_name(flights[from]))
    } else {
        first_with_hash(flights, hash, from + 1)
    }
}

/// The name of the first flight from `from` on that matches the
/// signature.
pub open spec fn first_with_signature(
    flights: Seq<FlightMetadata>,
    drone_serial: Seq<char>,
    battery_serial: Option<Seq<char>>,
    start_time: i64,
    from: int,
) -> Option<Seq<char>>
    decreases flights.len() - from,
{
    if from < 0 || from >= flights.len() {
        None
    } else if matches_signature(flights[from], drone_serial, battery_serial, start_time) {
        Some(shown_name(flights[from]))
    } else {
        first_with_signature(flights, drone_serial, battery_serial, start_time, from + 1)
    }
}

/// The name of the flight that is a duplicate by signature of a flight
/// about to be stored. Without the serial of the aircraft or without the
/// start time nothing can be told.
pub open spec fn duplicate_of(
    flights: Seq<FlightMetadata>,
    drone_serial: Option<Seq<char>>,
    battery_serial: Option<Seq<char>>,
    start_time: Option<i64>,
) -> Option<Seq<char>> {
    if drone_serial is Some && drone_serial->0.len() > 0 && start_time is Some {
        first_with_signature(flights, drone_serial->0, battery_serial, start_time->0, 0)
    } else {
        None
    }
}

fn check_states(text: &Option<String>, wanted: &str) -> (r: bool)
    ensures
        r == states(*text, wanted@),
{
    match text {
        Some(t) => is_text(t.as_str(), wanted),
        None => false,
    }
}

fn check_unstated(text: &Option<String>) -> (r: bool)
    ensures
        r == is_unstated(*text),
{
    match text {
        Some(t) => t.as_str().is_empty(),
        None => true,
    }
}

impl Database {
    /// Stores a flight. The store refuses a flight whose id, or whose
    /// content hash, a stored flight has already.
    pub fn insert_flight(&mut self, flight: FlightMetadata) -> (r: Result<i64, DatabaseError>)
        requires
            old(self).well_formed(),
        ensures
            final(self).well_formed(),
            final(self).telemetry == old(self).telemetry,
            final(self).tags == old(self).tags,
            final(self).notes == old(self).notes,
            final(self).settings == old(self).settings,
            final(self).equipment == old(self).equipment,
            final(self).messages == old(self).messages,
            r is Ok <==> !has_id(old(self).flights@, flight.id) && !(flight.file_hash is Some
                && has_hash(old(self).flights@, flight.file_hash->0@)),
            r is Ok ==> r == Ok::<i64, DatabaseError>(flight.id) && final(self).flights@ == old(
                self,
            ).flights@.push(flight),
            r is Err ==> r->Err_0 is Store && final(self).flights == old(self).flights,
    {
        let mut i: usize = 0;
        while i < self.flights.len()
            invariant
                i <= self.flights.len(),
                *self == *old(self),
                self.well_formed(),
                forall|k: int| 0 <= k < i ==> (#[trigger] self.flights@[k]).id != flight.id,
                flight.file_hash is Some ==> forall|k: int|
                    0 <= k < i ==> text_of((#[trigger] self.flights@[k]).file_hash) != Some(
                        flight.file_hash->0@,
                    ),
            decreases self.flights.len() - i,
        {
            if self.flights[i].id == flight.id {
                return Err(DatabaseError::Store("a flight with this id is stored".to_owned()));
            }
            match &flight.file_hash {
                Some(hash) => {
                    if check_states(&self.flights[i].file_hash, hash.as_str()) {
                        assert(text_of(self.flights@[i as int].file_hash) == Some(hash@));
                        return Err(
                            DatabaseError::Store("a flight with this hash is stored".to_owned()),
                        );
                    }
                },
                None => {},
            }
            i += 1;
        }
        let ghost before = self.flights@;
        let id = flight.id;
        self.flights.push(flight);
        proof {
            assert forall|a: int, b: int|
                0 <= a < self.flights@.len() && 0 <= b < self.flights@.len() && a
                    != b implies (#[trigger] self.flights@[a]).id != (
            #[trigger] self.flights@[b]).id by {
                if a < before.len() {
                    assert(self.flights@[a] == before[a]);
                }
                if b < before.len() {
                    assert(self.flights@[b] == before[b]);
                }
            }
        }
        Ok(id)
    }

    /// Loads the points of a flight in bulk. A point whose time the
    /// flight has already, in the store or earlier in the batch, is passed
    /// over, not written over. The answer is the number of points that
    /// went in.
    pub fn bulk_insert_telemetry(&mut self, flight_id: i64, points: Vec<TelemetryPoint>) -> (inserted:
        usize)
        requires
            old(self).well_formed(),
        ensures
            final(self).well_formed(),
            final(self).telemetry@ == loaded(old(self).telemetry@, flight_id, points@),
            inserted == final(self).telemetry@.len() - old(self).telemetry@.len(),
            inserted <= points@.len(),
            final(self).flights == old(self).flights,
            final(self).tags == old(self).tags,
            final(self).notes == old(self).notes,
            final(self).settings == old(self).settings,
            final(self).equipment == old(self).equipment,
            final(self).messages == old(self).messages,
    {
        let mut seen: HashSet<i64> = HashSet::new();
        let mut i: usize = 0;
        while i < self.telemetry.len()
            invariant
                i <= self.telemetry.len(),
                *self == *old(self),
                self.well_formed(),
                forall|t: i64|
                    seen@.contains(t) <==> has_point(self.telemetry@.take(i as int), flight_id, t),
            decreases self.telemetry.len() - i,
        {
            let ghost before = self.telemetry@.take(i as int);
            let ghost now = self.telemetry@.take(i + 1);
            let ghost old_seen = seen@;
            let row_time = self.telemetry[i].point.timestamp_ms;
            let belongs = self.telemetry[i].flight_id == flight_id;
            if belongs {
                seen.insert(row_time);
            }
            proof {
                assert(now =~= before.push(self.telemetry@[i as int]));
                assert forall|t: i64| seen@.contains(t) <==> has_point(now, flight_id, t) by {
                    if has_point(before, flight_id, t) {
                        let a = choose|a: int|
                            0 <= a < before.len() && (#[trigger] before[a]).flight_id == flight_id
                                && before[a].point.timestamp_ms == t;
                        assert(now[a] == before[a]);
                    }
                    if belongs && t == row_time {
                        assert(now[i as int].flight_id == flight_id);
                    }
                    if has_point(now, flight_id, t) {
                        let a = choose|a: int|
                            0 <= a < now.len() && (#[trigger] now[a]).flight_id == flight_id
                                && now[a].point.timestamp_ms == t;
                        if a < before.len() {
                            assert(before[a] == now[a]);
                        }
                    }
                }
            }
            i += 1;
        }
        assert(self.telemetry@.take(self.telemetry@.len() as int) =~= self.telemetry@);
        let ghost start = self.telemetry@;
        let ghost batch = points@;
        let total = points.len();
        let mut inserted: usize = 0;
        let mut k: usize = 0;
        for p in it: points
            invariant
                it.seq() == batch,
                k == it.index(),
                total == batch.len(),
                inserted <= k,
                start == old(self).telemetry@,
                keys_unique(start),
                ids_unique(self.flights@),
                self.flights == old(self).flights,
                self.tags == old(self).tags,
                self.notes == old(self).notes,
                self.settings == old(self).settings,
                self.equipment == old(self).equipment,
                self.messages == old(self).messages,
                self.telemetry@ == loaded_upto(start, flight_id, batch, k as int),
                inserted == self.telemetry@.len() - start.len(),
                forall|t: i64| seen@.contains(t) <==> has_point(self.telemetry@, flight_id, t),
        {
            let ghost before = self.telemetry@;
            let time = p.timestamp_ms;
            let fresh = seen.insert(time);
            if fresh {
                let row = StoredPoint { flight_id, point: p };
                self.telemetry.push(row);
                inserted += 1;
                proof {
                    let now = self.telemetry@;
                    assert forall|t: i64| seen@.contains(t) <==> has_point(
                        now,
                        flight_id,
                        t,
                    ) by {
                        if has_point(before, flight_id, t) {
                            let a = choose|a: int|
                                0 <= a < before.len() && (#[trigger] before[a]).flight_id
                                    == flight_id && before[a].point.timestamp_ms == t;
                            assert(now[a] == before[a]);
                        }
                        if t == time {
                            assert(now[now.len() - 1].flight_id == flight_id);
                        }
                        if has_point(now, flight_id, t) {
                            let a = choose|a: int|
                                0 <= a < now.len() && (#[trigger] now[a]).flight_id == flight_id
                                    && now[a].point.timestamp_ms == t;
                            if a < before.len() {
                                assert(before[a] == now[a]);
                            }
                        }
                    }
                }
            }
            k += 1;
        }
        proof {
            lemma_loaded_keeps_keys_unique(start, flight_id, batch, batch.len() as int);
        }
        inserted
    }
}

/// Which rows of the table of notes belong to flights that are there.
pub open spec fn note_has_flight(notes: Seq<StoredNote>, flights: Seq<FlightMetadata>) -> Seq<bool> {
    Seq::new(notes.len(), |i: int| has_id(flights, notes[i].flight_id))
}

/// The ids of the flights, as a set.
fn ids_of(flights: &Vec<FlightMetadata>) -> (ids: HashSet<i64>)
    ensures
        forall|id: i64| ids@.contains(id) <==> has_id(flights@, id),
{
    let mut ids: HashSet<i64> = HashSet::new();
    let mut i: usize = 0;
    while i < flights.len()
        invariant
            i <= flights.len(),
            forall|id: i64|
                ids@.contains(id) <==> exists|k: int|
                    0 <= k < i && (#[trigger] flights@[k]).id == id,
        decreases flights.len() - i,
    {
        let ghost before = ids@;
        let id = flights[i].id;
        ids.insert(id);
        proof {
            assert forall|x: i64|
                ids@.contains(x) <==> exists|k: int|
                    0 <= k < i + 1 && (#[trigger] flights@[k]).id == x by {
                if before.contains(x) {
                    let k = choose|k: int| 0 <= k < i && (#[trigger] flights@[k]).id == x;
                    assert(0 <= k < i + 1 && flights@[k].id == x);
                }
                if x == id {
                    assert(flights@[i as int].id == x);
                }
            }
        }
        i += 1;
    }
    ids
}

impl Database {
    /// Deletes a flight and all that belongs to it: its telemetry, its
    /// tags, its notes, its messages.
    pub fn delete_flight(&mut self, flight_id: i64)
        requires
            old(self).well_formed(),
        ensures
            final(self).well_formed(),
            final(self).flights@ == select(
                old(self).flights@,
                flight_not(old(self).flights@, flight_id),
            ),
            final(self).telemetry@ == select(
                old(self).telemetry@,
                point_not_of(old(self).telemetry@, flight_id),
            ),
            final(self).tags@ == select(old(self).tags@, tag_not_of(old(self).tags@, flight_id)),
            final(self).notes@ == select(
                old(self).notes@,
                note_not_of(old(self).notes@, flight_id),
            ),
            final(self).messages@ == select(
                old(self).messages@,
                message_not_of(old(self).messages@, flight_id),
            ),
            final(self).settings == old(self).settings,
            final(self).equipment == old(self).equipment,
            !has_id(final(self).flights@, flight_id),
    {
        let mut keep: Vec<bool> = Vec::new();
        let mut i: usize = 0;
        while i < self.telemetry.len()
            invariant
                i <= self.telemetry.len(),
                *self == *old(self),
                keep@ =~= Seq::new(i as nat, |k: int| self.telemetry@[k].flight_id != flight_id),
            decreases self.telemetry.len() - i,
        {
            keep.push(self.telemetry[i].flight_id != flight_id);
            i += 1;
        }
        proof {
            assert(keep@ =~= point_not_of(self.telemetry@, flight_id));
            lemma_select_keeps_keys_unique(self.telemetry@, keep@);
        }
        retain_flagged(&mut self.telemetry, &keep);
        let mut keep_tags: Vec<bool> = Vec::new();
        let mut i: usize = 0;
        while i < self.tags.len()
            invariant
                i <= self.tags.len(),
                self.tags == old(self).tags,
                keep_tags@ =~= Seq::new(i as nat, |k: int| self.tags@[k].flight_id != flight_id),
            decreases self.tags.len() - i,
        {
            keep_tags.push(self.tags[i].flight_id != flight_id);
            i += 1;
        }
        assert(keep_tags@ =~= tag_not_of(self.tags@, flight_id));
        retain_flagged(&mut self.tags, &keep_tags);
        let mut keep_notes: Vec<bool> = Vec::new();
        let mut i: usize = 0;
        while i < self.notes.len()
            invariant
                i <= self.notes.len(),
                self.notes == old(self).notes,
                keep_notes@ =~= Seq::new(i as nat, |k: int| self.notes@[k].flight_id != flight_id),
            decreases self.notes.len() - i,
        {
            keep_notes.push(self.notes[i].flight_id != flight_id);
            i += 1;
        }
        assert(keep_notes@ =~= note_not_of(self.notes@, flight_id));
        retain_flagged(&mut self.notes, &keep_notes);
        let mut keep_messages: Vec<bool> = Vec::new();
        let mut i: usize = 0;
        while i < self.messages.len()
            invariant
                i <= self.messages.len(),
                self.messages == old(self).messages,
                keep_messages@ =~= Seq::new(
                    i as nat,
                    |k: int| self.messages@[k].flight_id != flight_id,
                ),
            decreases self.messages.len() - i,
        {
            keep_messages.push(self.messages[i].flight_id != flight_id);
            i += 1;
        }
        assert(keep_messages@ =~= message_not_of(self.messages@, flight_id));
        retain_flagged(&mut self.messages, &keep_messages);
        let mut keep_flights: Vec<bool> = Vec::new();
        let mut i: usize = 0;
        while i < self.flights.len()
            invariant
                i <= self.flights.len(),
                self.flights == old(self).flights,
                keep_flights@ =~= Seq::new(i as nat, |k: int| self.flights@[k].id != flight_id),
            decreases self.flights.len() - i,
        {
            keep_flights.push(self.flights[i].id != flight_id);
            i += 1;
        }
        proof {
            assert(keep_flights@ =~= flight_not(self.flights@, flight_id));
            lemma_select_keeps_ids_unique(self.flights@, keep_flights@);
            lemma_select_members(self.flights@, keep_flights@);
            lemma_kept_indices(keep_flights@, self.flights@.len() as int);
        }
        retain_flagged(&mut self.flights, &keep_flights);
    }

    /// Deletes every flight and all that belongs to flights. The settings
    /// stay.
    pub fn delete_all_flights(&mut self)
        ensures
            final(self).well_formed(),
            final(self).flights@.len() == 0,
            final(self).telemetry@.len() == 0,
            final(self).tags@.len() == 0,
            final(self).notes@.len() == 0,
            final(self).messages@.len() == 0,
            final(self).settings == old(self).settings,
            final(self).equipment == old(self).equipment,
    {
        self.telemetry = Vec::new();
        self.tags = Vec::new();
        self.notes = Vec::new();
        self.messages = Vec::new();
        self.flights = Vec::new();
    }

    /// Removes duplicate flights: first those with one content hash, then
    /// those with one signature; of duplicates the one with the most
    /// points stays, and of those with as many points the one with the
    /// lowest id. The telemetry, the tags, the notes and the messages of
    /// the flights that went go with them, and so does every other row
    /// that belongs to no flight. The answer is the number of flights that
    /// went. What is left has no duplicates: a second run takes nothing.
    pub fn deduplicate_flights(&mut self) -> (removed: usize)
        requires
            old(self).well_formed(),
        ensures
            final(self).well_formed(),
            final(self).has_no_orphans(),
            final(self).flights@ == deduplicated(old(self).flights@),
            deduplicated(final(self).flights@) == final(self).flights@,
            removed == old(self).flights@.len() - final(self).flights@.len(),
            final(self).telemetry@ == select(
                old(self).telemetry@,
                point_has_flight(old(self).telemetry@, final(self).flights@),
            ),
            final(self).tags@ == select(
                old(self).tags@,
                tag_has_flight(old(self).tags@, final(self).flights@),
            ),
            final(self).notes@ == select(
                old(self).notes@,
                note_has_flight(old(self).notes@, final(self).flights@),
            ),
            final(self).messages@ == select(
                old(self).messages@,
                message_has_flight(old(self).messages@, final(self).flights@),
            ),
            final(self).settings == old(self).settings,
            final(self).equipment == old(self).equipment,
    {
        proof {
            lemma_deduplication_is_idempotent(self.flights@);
        }
        let removed = remove_duplicates(&mut self.flights);
        let ids = ids_of(&self.flights);
        let mut keep: Vec<bool> = Vec::new();
        let mut i: usize = 0;
        while i < self.telemetry.len()
            invariant
                i <= self.telemetry.len(),
                self.telemetry == old(self).telemetry,
                forall|id: i64| ids@.contains(id) <==> has_id(self.flights@, id),
                keep@ =~= Seq::new(
                    i as nat,
                    |k: int| has_id(self.flights@, self.telemetry@[k].flight_id),
                ),
            decreases self.telemetry.len() - i,
        {
            keep.push(ids.contains(&self.telemetry[i].flight_id));
            i += 1;
        }
        proof {
            assert(keep@ =~= point_has_flight(self.telemetry@, self.flights@));
            lemma_select_keeps_keys_unique(self.telemetry@, keep@);
            lemma_select_members(self.telemetry@, keep@);
            lemma_kept_indices(keep@, self.telemetry@.len() as int);
        }
        retain_flagged(&mut self.telemetry, &keep);
        let mut keep_tags: Vec<bool> = Vec::new();
        let mut i: usize = 0;
        while i < self.tags.len()
            invariant
                i <= self.tags.len(),
                self.tags == old(self).tags,
                forall|id: i64| ids@.contains(id) <==> has_id(self.flights@, id),
                keep_tags@ =~= Seq::new(
                    i as nat,
                    |k: int| has_id(self.flights@, self.tags@[k].flight_id),
                ),
            decreases self.tags.len() - i,
        {
            keep_tags.push(ids.contains(&self.tags[i].flight_id));
            i += 1;
        }
        proof {
            assert(keep_tags@ =~= tag_has_flight(self.tags@, self.flights@));
            lemma_select_members(self.tags@, keep_tags@);
            lemma_kept_indices(keep_tags@, self.tags@.len() as int);
        }
        retain_flagged(&mut self.tags, &keep_tags);
        let mut keep_notes: Vec<bool> = Vec::new();
        let mut i: usize = 0;
        while i < self.notes.len()
            invariant
                i <= self.notes.len(),
                self.notes == old(self).notes,
                forall|id: i64| ids@.contains(id) <==> has_id(self.flights@, id),
                keep_notes@ =~= Seq::new(
                    i as nat,
                    |k: int| has_id(self.flights@, self.notes@[k].flight_id),
                ),
            decreases self.notes.len() - i,
        {
            keep_notes.push(ids.contains(&self.notes[i].flight_id));
            i += 1;
        }
        assert(keep_notes@ =~= note_has_flight(self.notes@, self.flights@));
        retain_flagged(&mut self.notes, &keep_notes);
        let mut keep_messages: Vec<bool> = Vec::new();
        let mut i: usize = 0;
        while i < self.messages.len()
            invariant
                i <= self.messages.len(),
                self.messages == old(self).messages,
                forall|id: i64| ids@.contains(id) <==> has_id(self.flights@, id),
                keep_messages@ =~= Seq::new(
                    i as nat,
                    |k: int| has_id(self.flights@, self.messages@[k].flight_id),
                ),
            decreases self.messages.len() - i,
        {
            keep_messages.push(ids.contains(&self.messages[i].flight_id));
            i += 1;
        }
        assert(keep_messages@ =~= message_has_flight(self.messages@, self.flights@));
        retain_flagged(&mut self.messages, &keep_messages);
        removed
    }

    /// The name of the flight that was read from a file with this content
    /// hash, if there is one.
    pub fn is_file_imported(&self, file_hash: &str) -> (r: Option<String>)
        ensures
            text_of(r) == first_with_hash(self.flights@, file_hash@, 0),
    {
        let mut i: usize = 0;
        while i < self.flights.len()
            invariant
                i <= self.flights.len(),
                first_with_hash(self.flights@, file_hash@, 0) == first_with_hash(
                    self.flights@,
                    file_hash@,
                    i as int,
                ),
            decreases self.flights.len() - i,
        {
            let hit = check_states(&self.flights[i].file_hash, file_hash);
            if hit {
                return Some(self.flights[i].display_name.clone());
            }
            i += 1;
        }
        None
    }

    /// The name of the stored flight that is the same flight as one with
    /// the given signature, if there is one; see [`duplicate_of`].
    pub fn is_duplicate_flight(
        &self,
        drone_serial: Option<&str>,
        battery_serial: Option<&str>,
        start_time: Option<i64>,
    ) -> (r: Option<String>)
        ensures
            text_of(r) == duplicate_of(
                self.flights@,
                str_view(drone_serial),
                str_view(battery_serial),
                start_time,
            ),
    {
        let drone = match drone_serial {
            Some(d) => if d.is_empty() {
                return None;
            } else {
                d
            },
            None => {
                return None;
            },
        };
        let time = match start_time {
            Some(t) => t,
            None => {
                return None;
            },
        };
        let mut i: usize = 0;
        while i < self.flights.len()
            invariant
                i <= self.flights.len(),
                str_view(drone_serial) == Some(drone@),
                drone@.len() > 0,
                start_time == Some(time),
                first_with_signature(self.flights@, drone@, str_view(battery_serial), time, 0)
                    == first_with_signature(
                    self.flights@,
                    drone@,
                    str_view(battery_serial),
                    time,
                    i as int,
                ),
            decreases self.flights.len() - i,
        {
            let f = &self.flights[i];
            let same_time = match f.start_time {
                Some(t) => t == time,
                None => false,
            };
            let same_battery = match battery_serial {
                Some(b) => if b.is_empty() {
                    check_unstated(&f.battery_serial)
                } else {
                    check_states(&f.battery_serial, b)
                },
                None => check_unstated(&f.battery_serial),
            };
            let hit = same_time && same_battery && check_states(&f.drone_serial, drone);
            if hit {
                return Some(f.display_name.clone());
            }
            i += 1;
        }
        None
    }
}

// ---------------------------------------------------------------------------
// Serving telemetry
// ---------------------------------------------------------------------------

/// The content hashes that the first `n` flights state and that are not
/// empty.
pub open spec fn stated_hashes_upto(flights: Seq<FlightMetadata>, n: int) -> Seq<Seq<char>>
    decreases n,
{
    if n <= 0 {
        Seq::empty()
    } else {
        let before = stated_hashes_upto(flights, n - 1);
        match flights[n - 1].file_hash {
            Some(hash) => if hash@.len() > 0 {
                before.push(hash@)
            } else {
                before
            },
            None => before,
        }
    }
}

/// True when the record holds what the point holds of the quantities that
/// records have.
pub open spec fn is_record_of(r: TelemetryRecord, p: TelemetryPoint) -> bool {
    &&& r.timestamp_ms == p.timestamp_ms
    &&& r.latitude == p.latitude
    &&& r.longitude == p.longitude
    &&& r.altitude == p.altitude
    &&& r.height == p.height
    &&& r.vps_height == p.vps_height
    &&& r.speed == p.speed
    &&& r.velocity_x == p.velocity_x
    &&& r.velocity_y == p.velocity_y
    &&& r.velocity_z == p.velocity_z
    &&& r.battery_percent == p.battery_percent
    &&& r.battery_voltage == p.battery_voltage
    &&& r.battery_temp == p.battery_temp
    &&& cells_of(r.cell_voltages) == cells_of(p.cell_voltages)
    &&& r.pitch == p.pitch
    &&& r.roll == p.roll
    &&& r.yaw == p.yaw
    &&& r.satellites == p.satellites
    &&& r.flight_mode == p.flight_mode
    &&& r.rc_signal == p.rc_signal
    &&& r.rc_uplink == p.rc_uplink
    &&& r.rc_downlink == p.rc_downlink
    &&& r.rc_aileron == p.rc_aileron
    &&& r.rc_elevator == p.rc_elevator
    &&& r.rc_throttle == p.rc_throttle
    &&& r.rc_rudder == p.rc_rudder
    &&& r.is_photo == p.is_photo
    &&& r.is_video == p.is_video
}

/// True when the records are those of the points, one for one.
pub open spec fn are_records_of(records: Seq<TelemetryRecord>, points: Seq<TelemetryPoint>) -> bool {
    records.len() == points.len() && forall|i: int|
        0 <= i < records.len() ==> is_record_of(#[trigger] records[i], points[i])
}

/// The points of a flight among the first `n` rows, in the order of the
/// rows.
pub open spec fn flight_points_upto(telemetry: Seq<StoredPoint>, flight_id: i64, n: int) -> Seq<
    TelemetryPoint,
>
    decreases n,
{
    if n <= 0 {
        Seq::empty()
    } else {
        let before = flight_points_upto(telemetry, flight_id, n - 1);
        if telemetry[n - 1].flight_id == flight_id {
            before.push(telemetry[n - 1].point)
        } else {
            before
        }
    }
}

/// The points of a flight, in the order in which they were stored.
pub open spec fn flight_points(telemetry: Seq<StoredPoint>, flight_id: i64) -> Seq<TelemetryPoint> {
    flight_points_upto(telemetry, flight_id, telemetry.len() as int)
}

/// No two points of one flight have one time: the points of a flight in
/// a store that keeps its word are of distinct times.
pub proof fn lemma_flight_points_are_distinct(telemetry: Seq<StoredPoint>, flight_id: i64, n: int)
    requires
        keys_unique(telemetry),
        0 <= n <= telemetry.len(),
    ensures
        times_distinct(flight_points_upto(telemetry, flight_id, n)),
        forall|j: int|
            0 <= j < flight_points_upto(telemetry, flight_id, n).len() ==> exists|i: int|
                0 <= i < n && (#[trigger] telemetry[i]).flight_id == flight_id
                    && telemetry[i].point.timestamp_ms == (#[trigger] flight_points_upto(
                    telemetry,
                    flight_id,
                    n,
                )[j]).timestamp_ms,
    decreases n,
{
    if n > 0 {
        lemma_flight_points_are_distinct(telemetry, flight_id, n - 1);
        let before = flight_points_upto(telemetry, flight_id, n - 1);
        let now = flight_points_upto(telemetry, flight_id, n);
        assert forall|j: int| 0 <= j < now.len() implies exists|i: int|
            0 <= i < n && (#[trigger] telemetry[i]).flight_id == flight_id
                && telemetry[i].point.timestamp_ms == (#[trigger] now[j]).timestamp_ms by {
            if j < before.len() {
                let i = choose|i: int|
                    0 <= i < n - 1 && (#[trigger] telemetry[i]).flight_id == flight_id
                        && telemetry[i].point.timestamp_ms == before[j].timestamp_ms;
                assert(now[j] == before[j]);
                assert(0 <= i < n && telemetry[i].flight_id == flight_id);
            } else {
                assert(telemetry[n - 1].flight_id == flight_id);
            }
        }
        if telemetry[n - 1].flight_id == flight_id {
            assert forall|a: int, b: int| 0 <= a < b < now.len() implies now[a].timestamp_ms
                != now[b].timestamp_ms by {
                if b == before.len() {
                    let i = choose|i: int|
                        0 <= i < n - 1 && (#[trigger] telemetry[i]).flight_id == flight_id
                            && telemetry[i].point.timestamp_ms == before[a].timestamp_ms;
                    assert(now[a] == before[a]);
                    assert(telemetry[i].flight_id == telemetry[n - 1].flight_id);
                } else {
                    assert(now[a] == before[a] && now[b] == before[b]);
                }
            }
        }
    }
}

/// What serving ordered records comes to: the records as they are up to
/// the limit, one record for each bucket beyond it.
pub open spec fn is_served(
    out: Seq<TelemetryRecord>,
    records: Seq<TelemetryRecord>,
    max_points: Option<usize>,
) -> bool {
    if serves_raw(records.len() as int, max_points) {
        out == records
    } else {
        is_downsampled(out, records, bucket_size(records, point_limit(max_points)))
    }
}

/// The record of a point.
pub fn record_of(p: &TelemetryPoint) -> (r: TelemetryRecord)
    ensures
        is_record_of(r, *p),
{
    TelemetryRecord {
        timestamp_ms: p.timestamp_ms,
        latitude: p.latitude,
        longitude: p.longitude,
        altitude: p.altitude,
        height: p.height,
        vps_height: p.vps_height,
        speed: p.speed,
        velocity_x: p.velocity_x,
        velocity_y: p.velocity_y,
        velocity_z: p.velocity_z,
        battery_percent: p.battery_percent,
        battery_voltage: p.battery_voltage,
        battery_temp: p.battery_temp,
        cell_voltages: copy_cells(&p.cell_voltages),
        pitch: p.pitch,
        roll: p.roll,
        yaw: p.yaw,
        satellites: p.satellites,
        flight_mode: match &p.flight_mode {
            Some(text) => Some(text.clone()),
            None => None,
        },
        rc_signal: p.rc_signal,
        rc_uplink: p.rc_uplink,
        rc_downlink: p.rc_downlink,
        rc_aileron: p.rc_aileron,
        rc_elevator: p.rc_elevator,
        rc_throttle: p.rc_throttle,
        rc_rudder: p.rc_rudder,
        is_photo: p.is_photo,
        is_video: p.is_video,
    }
}

impl Database {
    /// Serves the telemetry of a flight in order of time: the stored
    /// points as they are where there are no more than `max_points` (5000
    /// where none is named), else one record for each bucket; see
    /// [`crate::downsample`]. The stored points decide which it is: the
    /// number of points that the caller knows of the flight is a hint that
    /// nothing rests on.
    pub fn get_flight_telemetry(
        &self,
        flight_id: i64,
        max_points: Option<usize>,
        _known_point_count: Option<i64>,
    ) -> (out: Vec<TelemetryRecord>)
        requires
            self.well_formed(),
            max_points != Some(0usize),
        ensures
            exists|records: Seq<TelemetryRecord>|
                #[trigger] are_records_of(records, flight_points(self.telemetry@, flight_id))
                    && is_served(out@, stable_sorted(records), max_points),
            serves_raw(flight_points(self.telemetry@, flight_id).len() as int, max_points)
                ==> is_strictly_ordered(out@) && out@.len() == flight_points(
                self.telemetry@,
                flight_id,
            ).len(),
    {
        let mut records: Vec<TelemetryRecord> = Vec::new();
        let mut i: usize = 0;
        while i < self.telemetry.len()
            invariant
                i <= self.telemetry.len(),
                are_records_of(records@, flight_points_upto(self.telemetry@, flight_id, i as int)),
            decreases self.telemetry.len() - i,
        {
            if self.telemetry[i].flight_id == flight_id {
                records.push(record_of(&self.telemetry[i].point));
            }
            i += 1;
        }
        let ghost unsorted = records@;
        proof {
            let points = flight_points(self.telemetry@, flight_id);
            lemma_flight_points_are_distinct(
                self.telemetry@,
                flight_id,
                self.telemetry@.len() as int,
            );
            assert(times_distinct(unsorted)) by {
                assert forall|a: int, b: int| 0 <= a < b < unsorted.len() implies unsorted[a].time()
                    != unsorted[b].time() by {
                    assert(is_record_of(unsorted[a], points[a]));
                    assert(is_record_of(unsorted[b], points[b]));
                }
            }
            lemma_stable_sorted_is_strict(unsorted);
        }
        let sorted = order_by_time(records);
        let out = serve(sorted, max_points);
        assert(are_records_of(unsorted, flight_points(self.telemetry@, flight_id)));
        out
    }

    /// The content hashes of the flights that state one that is not empty,
    /// in the order in which the flights were stored.
    pub fn get_all_file_hashes(&self) -> (hashes: Vec<String>)
        ensures
            texts(hashes@) == stated_hashes_upto(self.flights@, self.flights@.len() as int),
    {
        let mut hashes: Vec<String> = Vec::new();
        let mut i: usize = 0;
        assert(texts(hashes@) =~= stated_hashes_upto(self.flights@, 0));
        while i < self.flights.len()
            invariant
                i <= self.flights.len(),
                texts(hashes@) == stated_hashes_upto(self.flights@, i as int),
            decreases self.flights.len() - i,
        {
            match &self.flights[i].file_hash {
                Some(hash) => {
                    if !hash.as_str().is_empty() {
                        let copy = hash.clone();
                        proof {
                            crate::text::lemma_texts_push(hashes@, copy);
                        }
                        hashes.push(copy);
                    }
                },
                None => {},
            }
            i += 1;
        }
        hashes
    }

    /// The ids of all flights, in the order in which they were stored.
    pub fn get_all_flight_ids(&self) -> (ids: Vec<i64>)
        ensures
            ids@ == Seq::new(self.flights@.len(), |i: int| self.flights@[i].id),
    {
        let mut ids: Vec<i64> = Vec::new();
        let mut i: usize = 0;
        while i < self.flights.len()
            invariant
                i <= self.flights.len(),
                ids@ =~= Seq::new(i as nat, |k: int| self.flights@[k].id),
            decreases self.flights.len() - i,
        {
            ids.push(self.flights[i].id);
            i += 1;
        }
        ids
    }
}

// ---------------------------------------------------------------------------
// Tags
// ---------------------------------------------------------------------------

/// What a row of the tag table holds.
pub struct TagRow {
    pub flight_id: i64,
    pub tag: Seq<char>,
    pub tag_type: Seq<char>,
}

impl View for StoredTag {
    type V = TagRow;

    open spec fn view(&self) -> TagRow {
        TagRow { flight_id: self.flight_id, tag: self.tag@, tag_type: self.tag_type@ }
    }
}

/// What the rows of the tag table hold.
pub open spec fn tag_rows(tags: Seq<StoredTag>) -> Seq<TagRow> {
    Seq::new(tags.len(), |i: int| tags[i]@)
}

/// True when the flight has the tag.
pub open spec fn has_tag(rows: Seq<TagRow>, flight_id: i64, tag: Seq<char>) -> bool {
    exists|i: int|
        0 <= i < rows.len() && (#[trigger] rows[i]).flight_id == flight_id && rows[i].tag == tag
}

/// The table after the first `n` tags are given to a flight with the type
/// `tag_type`: a tag is stripped of the white space around it, and it goes
/// in unless it is empty or the flight has it already, with whatever type.
pub open spec fn tagged_upto(
    rows: Seq<TagRow>,
    flight_id: i64,
    tags: Seq<Seq<char>>,
    tag_type: Seq<char>,
    n: int,
) -> Seq<TagRow>
    decreases n,
{
    if n <= 0 {
        rows
    } else {
        let before = tagged_upto(rows, flight_id, tags, tag_type, n - 1);
        let tag = trimmed(tags[n - 1]);
        if tag.len() == 0 || has_tag(before, flight_id, tag) {
            before
        } else {
            before.push(TagRow { flight_id, tag, tag_type })
        }
    }
}

/// Which rows are not automatic tags of the flight.
pub open spec fn not_auto_of(rows: Seq<TagRow>, flight_id: i64) -> Seq<bool> {
    Seq::new(rows.len(), |i: int| !(rows[i].flight_id == flight_id && rows[i].tag_type == "auto"@))
}

/// Which rows are not automatic tags.
pub open spec fn not_auto(rows: Seq<TagRow>) -> Seq<bool> {
    Seq::new(rows.len(), |i: int| rows[i].tag_type != "auto"@)
}

/// Which rows are not the tag of the flight.
pub open spec fn not_tag_of(rows: Seq<TagRow>, flight_id: i64, tag: Seq<char>) -> Seq<bool> {
    Seq::new(rows.len(), |i: int| !(rows[i].flight_id == flight_id && rows[i].tag == tag))
}

/// The tags of a flight among the first `n` rows, in the order of the
/// rows.
pub open spec fn stored_tags_upto(tags: Seq<StoredTag>, flight_id: i64, n: int) -> Seq<FlightTag>
    decreases n,
{
    if n <= 0 {
        Seq::empty()
    } else {
        let before = stored_tags_upto(tags, flight_id, n - 1);
        if tags[n - 1].flight_id == flight_id {
            before.push(FlightTag { tag: tags[n - 1].tag, tag_type: tags[n - 1].tag_type })
        } else {
            before
        }
    }
}

impl Ranked for FlightTag {
    /// A tag ranks above the tags that it stands before in the order of
    /// texts.
    open spec fn above(&self, other: &Self) -> bool {
        precedes(self.tag@, other.tag@)
    }

    fn outranks(&self, other: &Self) -> (r: bool) {
        text_precedes(self.tag.as_str(), other.tag.as_str())
    }
}

/// The tags of a flight in the order of their texts; tags of one text in
/// the order of the rows.
pub open spec fn flight_tags(tags: Seq<StoredTag>, flight_id: i64) -> Seq<FlightTag> {
    ranked(stored_tags_upto(tags, flight_id, tags.len() as int))
}

/// The order of texts is an order of the tags.
pub proof fn lemma_tags_are_ordered()
    ensures
        ranks_are_ordered::<FlightTag>(),
{
    assert forall|a: FlightTag, b: FlightTag| #[trigger] a.above(&b) implies !b.above(&a) by {
        lemma_precedes_one_way(a.tag@, b.tag@, 0);
    }
    assert forall|a: FlightTag, b: FlightTag, c: FlightTag|
        #![trigger a.above(&b), a.above(&c)]
        #![trigger a.above(&b), c.above(&b)]
        a.above(&b) implies a.above(&c) || c.above(&b) by {
        lemma_precedes_between(a.tag@, b.tag@, c.tag@, 0);
    }
}

/// No tag of a flight stands before a tag that stands before it in the
/// list of the flight's tags.
pub proof fn lemma_flight_tags_ascend(tags: Seq<StoredTag>, flight_id: i64)
    ensures
        forall|i: int, j: int|
            #![trigger flight_tags(tags, flight_id)[j], flight_tags(tags, flight_id)[i]]
            0 <= i <= j < flight_tags(tags, flight_id).len() ==> !precedes(
                flight_tags(tags, flight_id)[j].tag@,
                flight_tags(tags, flight_id)[i].tag@,
            ),
{
    lemma_tags_are_ordered();
    lemma_ranked_descends(stored_tags_upto(tags, flight_id, tags.len() as int));
}

impl Ranked for String {
    /// A text ranks above the texts that it stands before in the order of
    /// texts.
    open spec fn above(&self, other: &Self) -> bool {
        precedes(self@, other@)
    }

    fn outranks(&self, other: &Self) -> (r: bool) {
        text_precedes(self.as_str(), other.as_str())
    }
}

/// The texts of the first `n` rows of the table of tags, each once, in the
/// order in which they come up.
pub open spec fn distinct_tags_upto(tags: Seq<StoredTag>, n: int) -> Seq<String>
    decreases n,
{
    if n <= 0 {
        Seq::empty()
    } else {
        let before = distinct_tags_upto(tags, n - 1);
        if texts(before).contains(tags[n - 1].tag@) {
            before
        } else {
            before.push(tags[n - 1].tag)
        }
    }
}

/// The tags that flights have, each once, in the order of texts.
pub open spec fn all_tags(tags: Seq<StoredTag>) -> Seq<String> {
    ranked(distinct_tags_upto(tags, tags.len() as int))
}

/// No tag of the list of all tags stands before a tag that stands before
/// it in the list.
pub proof fn lemma_all_tags_ascend(tags: Seq<StoredTag>)
    ensures
        forall|i: int, j: int|
            #![trigger all_tags(tags)[j], all_tags(tags)[i]]
            0 <= i <= j < all_tags(tags).len() ==> !precedes(all_tags(tags)[j]@, all_tags(tags)[i]@),
{
    assert forall|a: String, b: String| #[trigger] a.above(&b) implies !b.above(&a) by {
        lemma_precedes_one_way(a@, b@, 0);
    }
    assert forall|a: String, b: String, c: String|
        #![trigger a.above(&b), a.above(&c)]
        #![trigger a.above(&b), c.above(&b)]
        a.above(&b) implies a.above(&c) || c.above(&b) by {
        lemma_precedes_between(a@, b@, c@, 0);
    }
    lemma_ranked_descends(distinct_tags_upto(tags, tags.len() as int));
}

/// What tags hold: the tag and its type.
pub open spec fn tag_texts(tags: Seq<FlightTag>) -> Seq<(Seq<char>, Seq<char>)> {
    Seq::new(tags.len(), |i: int| (tags[i].tag@, tags[i].tag_type@))
}

/// What selected rows of the table of tags hold is what was selected of what
/// the rows hold.
pub proof fn lemma_tag_rows_of_select(tags: Seq<StoredTag>, keep: Seq<bool>)
    requires
        tags.len() == keep.len(),
    ensures
        tag_rows(select(tags, keep)) == select(tag_rows(tags), keep),
{
    lemma_kept_indices(keep, tags.len() as int);
    assert(tag_rows(select(tags, keep)) =~= select(tag_rows(tags), keep));
}

/// Giving tags to a flight takes no row from the table, and every row that
/// it adds is a tag of that flight with the given type.
pub proof fn lemma_tagged_upto_rows(
    rows: Seq<TagRow>,
    flight_id: i64,
    tags: Seq<Seq<char>>,
    tag_type: Seq<char>,
    n: int,
)
    requires
        0 <= n <= tags.len(),
    ensures
        rows.len() <= tagged_upto(rows, flight_id, tags, tag_type, n).len(),
        tagged_upto(rows, flight_id, tags, tag_type, n).take(rows.len() as int) == rows,
        forall|i: int|
            rows.len() <= i < tagged_upto(rows, flight_id, tags, tag_type, n).len() ==> (
            #[trigger] tagged_upto(rows, flight_id, tags, tag_type, n)[i]).flight_id == flight_id
                && tagged_upto(rows, flight_id, tags, tag_type, n)[i].tag_type == tag_type,
    decreases n,
{
    if n > 0 {
        lemma_tagged_upto_rows(rows, flight_id, tags, tag_type, n - 1);
        let before = tagged_upto(rows, flight_id, tags, tag_type, n - 1);
        let now = tagged_upto(rows, flight_id, tags, tag_type, n);
        assert(now.take(rows.len() as int) =~= before.take(rows.len() as int));
    } else {
        assert(rows.take(rows.len() as int) =~= rows);
    }
}

/// Automatic tags are replaced as a set, and nothing else is touched:
/// after the automatic tags of a flight are replaced, the table holds every
/// row that it held and that was not an automatic tag of that flight (the
/// manual tags of the flight and all the tags of other flights among
/// them), and every row that it holds besides is an automatic tag of that
/// flight.
pub proof fn lemma_replacing_touches_automatic_tags_only(
    rows: Seq<TagRow>,
    flight_id: i64,
    new_tags: Seq<Seq<char>>,
)
    ensures
        ({
            let kept = select(rows, not_auto_of(rows, flight_id));
            let after = tagged_upto(kept, flight_id, new_tags, "auto"@, new_tags.len() as int);
            &&& forall|i: int|
                0 <= i < rows.len() && !((#[trigger] rows[i]).flight_id == flight_id
                    && rows[i].tag_type == "auto"@) ==> after.contains(rows[i])
            &&& forall|j: int|
                0 <= j < after.len() ==> rows.contains(#[trigger] after[j]) || (after[j].flight_id
                    == flight_id && after[j].tag_type == "auto"@)
        }),
{
    let keep = not_auto_of(rows, flight_id);
    let kept = select(rows, keep);
    let after = tagged_upto(kept, flight_id, new_tags, "auto"@, new_tags.len() as int);
    lemma_select_members(rows, keep);
    lemma_kept_indices(keep, rows.len() as int);
    lemma_tagged_upto_rows(kept, flight_id, new_tags, "auto"@, new_tags.len() as int);
    assert forall|i: int|
        0 <= i < rows.len() && !((#[trigger] rows[i]).flight_id == flight_id && rows[i].tag_type
            == "auto"@) implies after.contains(rows[i]) by {
        assert(keep[i]);
        assert(kept.contains(rows[i]));
        let k = choose|k: int| 0 <= k < kept.len() && kept[k] == rows[i];
        assert(after.take(kept.len() as int)[k] == after[k]);
    }
    assert forall|j: int| 0 <= j < after.len() implies rows.contains(#[trigger] after[j]) || (
    after[j].flight_id == flight_id && after[j].tag_type == "auto"@) by {
        if j < kept.len() {
            assert(after.take(kept.len() as int)[j] == after[j]);
            assert(kept[j] == rows[kept_indices(keep, rows.len() as int)[j]]);
        }
    }
}

/// Says whether the flight has the tag.
fn check_has_tag(tags: &Vec<StoredTag>, flight_id: i64, tag: &str) -> (r: bool)
    ensures
        r == has_tag(tag_rows(tags@), flight_id, tag@),
{
    let mut i: usize = 0;
    while i < tags.len()
        invariant
            i <= tags.len(),
            forall|k: int|
                0 <= k < i ==> !((#[trigger] tag_rows(tags@)[k]).flight_id == flight_id
                    && tag_rows(tags@)[k].tag == tag@),
        decreases tags.len() - i,
    {
        assert(tag_rows(tags@)[i as int] == tags@[i as int]@);
        if tags[i].flight_id == flight_id && is_text(tags[i].tag.as_str(), tag) {
            return true;
        }
        i += 1;
    }
    false
}

/// Gives tags to a flight, each unless the flight has it.
fn give_tags(table: &mut Vec<StoredTag>, flight_id: i64, tags: &Vec<String>, tag_type: &str)
    ensures
        tag_rows(final(table)@) == tagged_upto(
            tag_rows(old(table)@),
            flight_id,
            texts(tags@),
            tag_type@,
            tags@.len() as int,
        ),
{
    let mut i: usize = 0;
    while i < tags.len()
        invariant
            i <= tags.len(),
            tag_rows(table@) == tagged_upto(
                tag_rows(old(table)@),
                flight_id,
                texts(tags@),
                tag_type@,
                i as int,
            ),
        decreases tags.len() - i,
    {
        assert(texts(tags@)[i as int] == tags@[i as int]@);
        let tag = string_of(&trim(&chars_of(tags[i].as_str())));
        if !tag.as_str().is_empty() && !check_has_tag(table, flight_id, tag.as_str()) {
            let row = StoredTag { flight_id, tag, tag_type: tag_type.to_owned() };
            proof {
                assert(tag_rows(table@.push(row)) =~= tag_rows(table@).push(row@));
            }
            table.push(row);
        }
        i += 1;
    }
}

impl Database {
    /// Gives a flight automatic tags. A tag that is blank, and a tag that
    /// the flight has already, changes nothing.
    pub fn insert_flight_tags(&mut self, flight_id: i64, tags: &Vec<String>)
        ensures
            tag_rows(final(self).tags@) == tagged_upto(
                tag_rows(old(self).tags@),
                flight_id,
                texts(tags@),
                "auto"@,
                tags@.len() as int,
            ),
            final(self).flights == old(self).flights,
            final(self).telemetry == old(self).telemetry,
            final(self).notes == old(self).notes,
            final(self).settings == old(self).settings,
            final(self).equipment == old(self).equipment,
            final(self).messages == old(self).messages,
    {
        give_tags(&mut self.tags, flight_id, tags, "auto");
    }

    /// Gives a flight one manual tag. A tag that is blank, and a tag that
    /// the flight has already, changes nothing.
    pub fn add_flight_tag(&mut self, flight_id: i64, tag: &str)
        ensures
            tag_rows(final(self).tags@) == tagged_upto(
                tag_rows(old(self).tags@),
                flight_id,
                seq![tag@],
                "manual"@,
                1,
            ),
            final(self).flights == old(self).flights,
            final(self).telemetry == old(self).telemetry,
            final(self).notes == old(self).notes,
            final(self).settings == old(self).settings,
            final(self).equipment == old(self).equipment,
            final(self).messages == old(self).messages,
    {
        let mut one: Vec<String> = Vec::new();
        one.push(tag.to_owned());
        assert(texts(one@) =~= seq![tag@]);
        give_tags(&mut self.tags, flight_id, &one, "manual");
    }

    /// Takes one tag from a flight, automatic or manual.
    pub fn remove_flight_tag(&mut self, flight_id: i64, tag: &str)
        ensures
            tag_rows(final(self).tags@) == select(
                tag_rows(old(self).tags@),
                not_tag_of(tag_rows(old(self).tags@), flight_id, trimmed(tag@)),
            ),
            final(self).flights == old(self).flights,
            final(self).telemetry == old(self).telemetry,
            final(self).notes == old(self).notes,
            final(self).settings == old(self).settings,
            final(self).equipment == old(self).equipment,
            final(self).messages == old(self).messages,
    {
        let wanted = string_of(&trim(&chars_of(tag)));
        let mut keep: Vec<bool> = Vec::new();
        let mut i: usize = 0;
        while i < self.tags.len()
            invariant
                i <= self.tags.len(),
                *self == *old(self),
                wanted@ == trimmed(tag@),
                keep@ =~= Seq::new(
                    i as nat,
                    |k: int|
                        !(tag_rows(self.tags@)[k].flight_id == flight_id && tag_rows(
                            self.tags@,
                        )[k].tag == wanted@),
                ),
            decreases self.tags.len() - i,
        {
            assert(tag_rows(self.tags@)[i as int] == self.tags@[i as int]@);
            keep.push(
                !(self.tags[i].flight_id == flight_id && is_text(
                    self.tags[i].tag.as_str(),
                    wanted.as_str(),
                )),
            );
            i += 1;
        }
        proof {
            assert(keep@ =~= not_tag_of(tag_rows(self.tags@), flight_id, trimmed(tag@)));
            lemma_tag_rows_of_select(self.tags@, keep@);
        }
        retain_flagged(&mut self.tags, &keep);
    }

    /// Replaces the automatic tags of a flight, all of them, by new ones.
    /// The manual tags of the flight stay; a new tag that the flight has
    /// as a manual tag is not given again.
    pub fn replace_auto_tags(&mut self, flight_id: i64, new_tags: &Vec<String>)
        ensures
            tag_rows(final(self).tags@) == tagged_upto(
                select(
                    tag_rows(old(self).tags@),
                    not_auto_of(tag_rows(old(self).tags@), flight_id),
                ),
                flight_id,
                texts(new_tags@),
                "auto"@,
                new_tags@.len() as int,
            ),
            final(self).flights == old(self).flights,
            final(self).telemetry == old(self).telemetry,
            final(self).notes == old(self).notes,
            final(self).settings == old(self).settings,
            final(self).equipment == old(self).equipment,
            final(self).messages == old(self).messages,
    {
        let mut keep: Vec<bool> = Vec::new();
        let mut i: usize = 0;
        while i < self.tags.len()
            invariant
                i <= self.tags.len(),
                *self == *old(self),
                keep@ =~= Seq::new(
                    i as nat,
                    |k: int|
                        !(tag_rows(self.tags@)[k].flight_id == flight_id && tag_rows(
                            self.tags@,
                        )[k].tag_type == "auto"@),
                ),
            decreases self.tags.len() - i,
        {
            assert(tag_rows(self.tags@)[i as int] == self.tags@[i as int]@);
            keep.push(
                !(self.tags[i].flight_id == flight_id && is_text(
                    self.tags[i].tag_type.as_str(),
                    "auto",
                )),
            );
            i += 1;
        }
        proof {
            assert(keep@ =~= not_auto_of(tag_rows(self.tags@), flight_id));
            lemma_tag_rows_of_select(self.tags@, keep@);
        }
        retain_flagged(&mut self.tags, &keep);
        give_tags(&mut self.tags, flight_id, new_tags, "auto");
    }

    /// Takes the automatic tags from all flights and says how many went.
    /// The manual tags stay.
    pub fn remove_all_auto_tags(&mut self) -> (removed: usize)
        ensures
            tag_rows(final(self).tags@) == select(
                tag_rows(old(self).tags@),
                not_auto(tag_rows(old(self).tags@)),
            ),
            removed == old(self).tags@.len() - final(self).tags@.len(),
            final(self).flights == old(self).flights,
            final(self).telemetry == old(self).telemetry,
            final(self).notes == old(self).notes,
            final(self).settings == old(self).settings,
            final(self).equipment == old(self).equipment,
            final(self).messages == old(self).messages,
    {
        let mut keep: Vec<bool> = Vec::new();
        let mut i: usize = 0;
        while i < self.tags.len()
            invariant
                i <= self.tags.len(),
                *self == *old(self),
                keep@ =~= Seq::new(
                    i as nat,
                    |k: int| tag_rows(self.tags@)[k].tag_type != "auto"@,
                ),
            decreases self.tags.len() - i,
        {
            assert(tag_rows(self.tags@)[i as int] == self.tags@[i as int]@);
            keep.push(!is_text(self.tags[i].tag_type.as_str(), "auto"));
            i += 1;
        }
        proof {
            assert(keep@ =~= not_auto(tag_rows(self.tags@)));
            lemma_tag_rows_of_select(self.tags@, keep@);
        }
        retain_flagged(&mut self.tags, &keep)
    }

    /// The tags of a flight, in the order of the rows of the table.
    pub fn tags_as_stored(&self, flight_id: i64) -> (tags: Vec<FlightTag>)
        ensures
            tags@ == stored_tags_upto(self.tags@, flight_id, self.tags@.len() as int),
    {
        let mut tags: Vec<FlightTag> = Vec::new();
        let mut i: usize = 0;
        while i < self.tags.len()
            invariant
                i <= self.tags.len(),
                tags@ == stored_tags_upto(self.tags@, flight_id, i as int),
            decreases self.tags.len() - i,
        {
            if self.tags[i].flight_id == flight_id {
                tags.push(
                    FlightTag {
                        tag: self.tags[i].tag.clone(),
                        tag_type: self.tags[i].tag_type.clone(),
                    },
                );
            }
            i += 1;
        }
        tags
    }

    /// The tags that flights have, each once, in the order of texts.
    pub fn get_all_unique_tags(&self) -> (out: Vec<String>)
        ensures
            out@ == all_tags(self.tags@),
    {
        let mut found: Vec<String> = Vec::new();
        let mut i: usize = 0;
        while i < self.tags.len()
            invariant
                i <= self.tags.len(),
                found@ == distinct_tags_upto(self.tags@, i as int),
            decreases self.tags.len() - i,
        {
            if !has_text(&found, self.tags[i].tag.as_str()) {
                found.push(self.tags[i].tag.clone());
            }
            i += 1;
        }
        rank_all(found)
    }

    /// The tags of a flight, in the order of their texts.
    pub fn get_flight_tags(&self, flight_id: i64) -> (tags: Vec<FlightTag>)
        ensures
            tags@ == flight_tags(self.tags@, flight_id),
    {
        rank_all(self.tags_as_stored(flight_id))
    }
}

// ---------------------------------------------------------------------------
// Settings, names and notes
// ---------------------------------------------------------------------------

/// The key of the flag that says that the store was deduplicated once.
pub open spec fn dedup_flag_key() -> Seq<char> {
    "duplicate_checked"@
}

/// What the rows of the settings table hold: the key and the value.
pub open spec fn setting_rows(settings: Seq<Setting>) -> Seq<(Seq<char>, Seq<char>)> {
    Seq::new(settings.len(), |i: int| (settings[i].key@, settings[i].value@))
}

/// The value of the last of the first `n` rows with the key.
pub open spec fn setting_value(rows: Seq<(Seq<char>, Seq<char>)>, key: Seq<char>, n: int) -> Option<
    Seq<char>,
>
    decreases n,
{
    if n <= 0 {
        None
    } else if rows[n - 1].0 == key {
        Some(rows[n - 1].1)
    } else {
        setting_value(rows, key, n - 1)
    }
}

/// Which rows do not have the key.
pub open spec fn not_key(rows: Seq<(Seq<char>, Seq<char>)>, key: Seq<char>) -> Seq<bool> {
    Seq::new(rows.len(), |i: int| rows[i].0 != key)
}

/// What the rows of the table of notes hold: the flight and the notes.
pub open spec fn note_rows(notes: Seq<StoredNote>) -> Seq<(i64, Seq<char>)> {
    Seq::new(notes.len(), |i: int| (notes[i].flight_id, notes[i].notes@))
}

/// The notes to store: the text without the white space around it, unless
/// nothing is left.
pub open spec fn notes_to_store(notes: Option<Seq<char>>) -> Option<Seq<char>> {
    match notes {
        Some(text) => if is_blank(text) {
            None
        } else {
            Some(trimmed(text))
        },
        None => None,
    }
}

/// What selected settings hold is what was selected of what the settings hold.
pub proof fn lemma_setting_rows_of_select(settings: Seq<Setting>, keep: Seq<bool>)
    requires
        settings.len() == keep.len(),
    ensures
        setting_rows(select(settings, keep)) == select(setting_rows(settings), keep),
{
    lemma_kept_indices(keep, settings.len() as int);
    assert(setting_rows(select(settings, keep)) =~= select(setting_rows(settings), keep));
}

/// What selected notes hold is what was selected of what the notes hold.
pub proof fn lemma_note_rows_of_select(notes: Seq<StoredNote>, keep: Seq<bool>)
    requires
        notes.len() == keep.len(),
    ensures
        note_rows(select(notes, keep)) == select(note_rows(notes), keep),
{
    lemma_kept_indices(keep, notes.len() as int);
    assert(note_rows(select(notes, keep)) =~= select(note_rows(notes), keep));
}

/// After the rows with a key went and one row with the key came, the key
/// has the value of that row.
pub proof fn lemma_setting_is_set(rows: Seq<(Seq<char>, Seq<char>)>, key: Seq<char>, value: Seq<char>)
    ensures
        setting_value(rows.push((key, value)), key, (rows.len() + 1) as int) == Some(value),
{
}

impl Database {
    /// The value of a setting, if it is set.
    pub fn get_setting(&self, key: &str) -> (r: Option<String>)
        ensures
            text_of(r) == setting_value(
                setting_rows(self.settings@),
                key@,
                self.settings@.len() as int,
            ),
    {
        let mut i: usize = self.settings.len();
        while i > 0
            invariant
                i <= self.settings.len(),
                setting_value(setting_rows(self.settings@), key@, self.settings@.len() as int)
                    == setting_value(setting_rows(self.settings@), key@, i as int),
            decreases i,
        {
            assert(setting_rows(self.settings@)[i - 1] == (
                self.settings@[i - 1].key@,
                self.settings@[i - 1].value@,
            ));
            if is_text(self.settings[i - 1].key.as_str(), key) {
                return Some(self.settings[i - 1].value.clone());
            }
            i -= 1;
        }
        None
    }

    /// Sets a setting, in place of what it was set to.
    pub fn set_setting(&mut self, key: &str, value: &str)
        ensures
            setting_rows(final(self).settings@) == select(
                setting_rows(old(self).settings@),
                not_key(setting_rows(old(self).settings@), key@),
            ).push((key@, value@)),
            setting_value(
                setting_rows(final(self).settings@),
                key@,
                final(self).settings@.len() as int,
            ) == Some(value@),
            final(self).flights == old(self).flights,
            final(self).telemetry == old(self).telemetry,
            final(self).tags == old(self).tags,
            final(self).notes == old(self).notes,
            final(self).messages == old(self).messages,
            final(self).equipment == old(self).equipment,
    {
        let mut keep: Vec<bool> = Vec::new();
        let mut i: usize = 0;
        while i < self.settings.len()
            invariant
                i <= self.settings.len(),
                *self == *old(self),
                keep@ =~= Seq::new(i as nat, |k: int| setting_rows(self.settings@)[k].0 != key@),
            decreases self.settings.len() - i,
        {
            assert(setting_rows(self.settings@)[i as int] == (
                self.settings@[i as int].key@,
                self.settings@[i as int].value@,
            ));
            keep.push(!is_text(self.settings[i].key.as_str(), key));
            i += 1;
        }
        proof {
            assert(keep@ =~= not_key(setting_rows(self.settings@), key@));
            lemma_setting_rows_of_select(self.settings@, keep@);
        }
        retain_flagged(&mut self.settings, &keep);
        let row = Setting { key: key.to_owned(), value: value.to_owned() };
        proof {
            assert(setting_rows(self.settings@.push(row)) =~= setting_rows(self.settings@).push(
                (key@, value@),
            ));
            lemma_setting_is_set(setting_rows(self.settings@), key@, value@);
        }
        self.settings.push(row);
    }

    /// Removes duplicate flights once in the life of a store: where the
    /// flag that says so is not set to `true`, the store is deduplicated
    /// and the flag is set. The answer is the number of flights that went,
    /// or nothing where the store was deduplicated before.
    pub fn run_startup_deduplication(&mut self) -> (r: Option<usize>)
        requires
            old(self).well_formed(),
        ensures
            final(self).well_formed(),
            r is None <==> setting_value(
                setting_rows(old(self).settings@),
                dedup_flag_key(),
                old(self).settings@.len() as int,
            ) == Some("true"@),
            r is None ==> *final(self) == *old(self),
            final(self).equipment == old(self).equipment,
            r matches Some(removed) ==> {
                &&& final(self).flights@ == deduplicated(old(self).flights@)
                &&& removed == old(self).flights@.len() - final(self).flights@.len()
                &&& final(self).has_no_orphans()
                &&& final(self).telemetry@ == select(
                    old(self).telemetry@,
                    point_has_flight(old(self).telemetry@, final(self).flights@),
                )
                &&& final(self).tags@ == select(
                    old(self).tags@,
                    tag_has_flight(old(self).tags@, final(self).flights@),
                )
                &&& final(self).notes@ == select(
                    old(self).notes@,
                    note_has_flight(old(self).notes@, final(self).flights@),
                )
                &&& final(self).messages@ == select(
                    old(self).messages@,
                    message_has_flight(old(self).messages@, final(self).flights@),
                )
                &&& setting_rows(final(self).settings@) == select(
                    setting_rows(old(self).settings@),
                    not_key(setting_rows(old(self).settings@), dedup_flag_key()),
                ).push((dedup_flag_key(), "true"@))
                &&& setting_value(
                    setting_rows(final(self).settings@),
                    dedup_flag_key(),
                    final(self).settings@.len() as int,
                ) == Some("true"@)
            },
    {
        let done = match self.get_setting("duplicate_checked") {
            Some(value) => is_text(value.as_str(), "true"),
            None => false,
        };
        if done {
            return None;
        }
        let removed = self.deduplicate_flights();
        self.set_setting("duplicate_checked", "true");
        Some(removed)
    }

    /// Gives a flight another name. The name is stripped of the white
    /// space around it; a blank name is refused. The answer says whether
    /// there is such a flight.
    pub fn update_flight_name(&mut self, flight_id: i64, display_name: &str) -> (r: Result<
        bool,
        DatabaseError,
    >)
        requires
            old(self).well_formed(),
        ensures
            final(self).well_formed(),
            final(self).telemetry == old(self).telemetry,
            final(self).tags == old(self).tags,
            final(self).notes == old(self).notes,
            final(self).settings == old(self).settings,
            final(self).equipment == old(self).equipment,
            final(self).messages == old(self).messages,
            r is Err <==> is_blank(display_name@),
            r is Err ==> final(self).flights == old(self).flights,
            r matches Ok(found) ==> {
                &&& found == has_id(old(self).flights@, flight_id)
                &&& final(self).flights@.len() == old(self).flights@.len()
                &&& forall|i: int|
                    0 <= i < final(self).flights@.len() ==> (#[trigger] final(self).flights@[i]@)
                        == if old(self).flights@[i].id == flight_id {
                        crate::models::FlightMetadataView {
                            display_name: trimmed(display_name@),
                            ..old(self).flights@[i]@
                        }
                    } else {
                        old(self).flights@[i]@
                    }
            },
    {
        let name = string_of(&trim(&chars_of(display_name)));
        if name.as_str().is_empty() {
            return Err(DatabaseError::Store("Display name cannot be empty".to_owned()));
        }
        let mut i: usize = 0;
        while i < self.flights.len()
            invariant
                i <= self.flights.len(),
                *self == *old(self),
                self.well_formed(),
                name@ == trimmed(display_name@),
                !is_blank(display_name@),
                forall|k: int| 0 <= k < i ==> (#[trigger] self.flights@[k]).id != flight_id,
            decreases self.flights.len() - i,
        {
            if self.flights[i].id == flight_id {
                let ghost before = self.flights@;
                let mut flight = self.flights.remove(i);
                flight.display_name = name;
                self.flights.insert(i, flight);
                proof {
                    assert forall|a: int, b: int|
                        0 <= a < self.flights@.len() && 0 <= b < self.flights@.len() && a
                            != b implies (#[trigger] self.flights@[a]).id != (
                    #[trigger] self.flights@[b]).id by {
                        assert(self.flights@[a].id == before[a].id);
                        assert(self.flights@[b].id == before[b].id);
                    }
                    assert forall|k: int| 0 <= k < self.flights@.len() implies (
                    #[trigger] self.flights@[k]@) == if before[k].id == flight_id {
                        crate::models::FlightMetadataView {
                            display_name: trimmed(display_name@),
                            ..before[k]@
                        }
                    } else {
                        before[k]@
                    } by {
                        if k != i {
                            assert(self.flights@[k] == before[k]);
                            assert(before[k].id != before[i as int].id);
                        }
                    }
                }
                return Ok(true);
            }
            i += 1;
        }
        Ok(false)
    }

    /// Sets the notes of a flight, in place of what they were. Blank notes
    /// and no notes leave the flight without notes.
    pub fn update_flight_notes(&mut self, flight_id: i64, notes: Option<&str>)
        ensures
            note_rows(final(self).notes@) == match notes_to_store(str_view(notes)) {
                Some(text) => select(
                    note_rows(old(self).notes@),
                    note_not_of(old(self).notes@, flight_id),
                ).push((flight_id, text)),
                None => select(
                    note_rows(old(self).notes@),
                    note_not_of(old(self).notes@, flight_id),
                ),
            },
            final(self).flights == old(self).flights,
            final(self).telemetry == old(self).telemetry,
            final(self).tags == old(self).tags,
            final(self).settings == old(self).settings,
            final(self).equipment == old(self).equipment,
            final(self).messages == old(self).messages,
    {
        let mut keep: Vec<bool> = Vec::new();
        let mut i: usize = 0;
        while i < self.notes.len()
            invariant
                i <= self.notes.len(),
                *self == *old(self),
                keep@ =~= Seq::new(i as nat, |k: int| self.notes@[k].flight_id != flight_id),
            decreases self.notes.len() - i,
        {
            keep.push(self.notes[i].flight_id != flight_id);
            i += 1;
        }
        proof {
            assert(keep@ =~= note_not_of(self.notes@, flight_id));
            lemma_note_rows_of_select(self.notes@, keep@);
        }
        retain_flagged(&mut self.notes, &keep);
        match notes {
            Some(text) => {
                let stripped = string_of(&trim(&chars_of(text)));
                if !stripped.as_str().is_empty() {
                    let row = StoredNote { flight_id, notes: stripped };
                    proof {
                        assert(note_rows(self.notes@.push(row)) =~= note_rows(self.notes@).push(
                            (flight_id, row.notes@),
                        ));
                    }
                    self.notes.push(row);
                }
            },
            None => {},
        }
    }
}


// ---------------------------------------------------------------------------
// Messages
// ---------------------------------------------------------------------------

/// True when the flight has a message of the type at the time.
pub open spec fn has_message(
    messages: Seq<StoredMessage>,
    flight_id: i64,
    timestamp_ms: i64,
    message_type: Seq<char>,
) -> bool {
    exists|i: int|
        0 <= i < messages.len() && (#[trigger] messages[i]).flight_id == flight_id
            && messages[i].message.timestamp_ms == timestamp_ms
            && messages[i].message.message_type@ == message_type
}

/// The table after the first `n` messages are stored for a flight: a
/// message goes in behind the others unless the flight has a message of
/// its type at its time already.
pub open spec fn messaged_upto(
    table: Seq<StoredMessage>,
    flight_id: i64,
    messages: Seq<FlightMessage>,
    n: int,
) -> Seq<StoredMessage>
    decreases n,
{
    if n <= 0 {
        table
    } else {
        let before = messaged_upto(table, flight_id, messages, n - 1);
        let m = messages[n - 1];
        if has_message(before, flight_id, m.timestamp_ms, m.message_type@) {
            before
        } else {
            before.push(StoredMessage { flight_id, message: m })
        }
    }
}

/// True when no two messages have one flight, one time and one type.
pub open spec fn message_keys_unique(messages: Seq<StoredMessage>) -> bool {
    forall|i: int, j: int|
        0 <= i < messages.len() && 0 <= j < messages.len() && i != j ==> !((
        #[trigger] messages[i]).flight_id == (#[trigger] messages[j]).flight_id
            && messages[i].message.timestamp_ms == messages[j].message.timestamp_ms
            && messages[i].message.message_type@ == messages[j].message.message_type@)
}

/// Storing messages leaves no two messages with one flight, one time and
/// one type where there were none.
pub proof fn lemma_messages_stay_distinct(
    table: Seq<StoredMessage>,
    flight_id: i64,
    messages: Seq<FlightMessage>,
    n: int,
)
    requires
        message_keys_unique(table),
        0 <= n <= messages.len(),
    ensures
        message_keys_unique(messaged_upto(table, flight_id, messages, n)),
    decreases n,
{
    if n > 0 {
        lemma_messages_stay_distinct(table, flight_id, messages, n - 1);
        let before = messaged_upto(table, flight_id, messages, n - 1);
        let m = messages[n - 1];
        if !has_message(before, flight_id, m.timestamp_ms, m.message_type@) {
            let after = before.push(StoredMessage { flight_id, message: m });
            assert forall|i: int, j: int|
                0 <= i < after.len() && 0 <= j < after.len() && i != j implies !((
            #[trigger] after[i]).flight_id == (#[trigger] after[j]).flight_id
                && after[i].message.timestamp_ms == after[j].message.timestamp_ms
                && after[i].message.message_type@ == after[j].message.message_type@) by {
                if i < before.len() && j < before.len() {
                    assert(after[i] == before[i] && after[j] == before[j]);
                } else if i < before.len() {
                    assert(after[i] == before[i]);
                } else {
                    assert(after[j] == before[j]);
                }
            }
        }
    }
}

/// The messages of a flight among the first `n` rows, in the order of the
/// rows.
pub open spec fn stored_messages_upto(messages: Seq<StoredMessage>, flight_id: i64, n: int) -> Seq<
    FlightMessage,
>
    decreases n,
{
    if n <= 0 {
        Seq::empty()
    } else {
        let before = stored_messages_upto(messages, flight_id, n - 1);
        if messages[n - 1].flight_id == flight_id {
            before.push(messages[n - 1].message)
        } else {
            before
        }
    }
}

/// The messages of a flight in order of time; messages of one time in the
/// order of the rows.
pub open spec fn flight_messages(messages: Seq<StoredMessage>, flight_id: i64) -> Seq<FlightMessage> {
    stable_sorted(stored_messages_upto(messages, flight_id, messages.len() as int))
}

impl Timed for FlightMessage {
    open spec fn time(&self) -> i64 {
        self.timestamp_ms
    }

    fn timestamp(&self) -> (t: i64) {
        self.timestamp_ms
    }
}

fn check_has_message(
    messages: &Vec<StoredMessage>,
    flight_id: i64,
    timestamp_ms: i64,
    message_type: &str,
) -> (r: bool)
    ensures
        r == has_message(messages@, flight_id, timestamp_ms, message_type@),
{
    let mut i: usize = 0;
    while i < messages.len()
        invariant
            i <= messages.len(),
            forall|k: int|
                0 <= k < i ==> !((#[trigger] messages@[k]).flight_id == flight_id
                    && messages@[k].message.timestamp_ms == timestamp_ms
                    && messages@[k].message.message_type@ == message_type@),
        decreases messages.len() - i,
    {
        if messages[i].flight_id == flight_id && messages[i].message.timestamp_ms == timestamp_ms
            && is_text(messages[i].message.message_type.as_str(), message_type) {
            return true;
        }
        i += 1;
    }
    false
}

impl Database {
    /// Stores the tips and warnings of a flight. A message changes nothing
    /// where the flight has a message of its type at its time already.
    pub fn insert_flight_messages(&mut self, flight_id: i64, messages: Vec<FlightMessage>)
        ensures
            final(self).messages@ == messaged_upto(
                old(self).messages@,
                flight_id,
                messages@,
                messages@.len() as int,
            ),
            final(self).flights == old(self).flights,
            final(self).telemetry == old(self).telemetry,
            final(self).tags == old(self).tags,
            final(self).notes == old(self).notes,
            final(self).settings == old(self).settings,
            final(self).equipment == old(self).equipment,
    {
        let ghost all = messages@;
        let n = messages.len();
        let mut k: usize = 0;
        for m in it: messages
            invariant
                it.seq() == all,
                k == it.index(),
                n == all.len(),
                self.flights == old(self).flights,
                self.telemetry == old(self).telemetry,
                self.tags == old(self).tags,
                self.notes == old(self).notes,
                self.settings == old(self).settings,
                self.equipment == old(self).equipment,
                self.messages@ == messaged_upto(old(self).messages@, flight_id, all, k as int),
        {
            if !check_has_message(
                &self.messages,
                flight_id,
                m.timestamp_ms,
                m.message_type.as_str(),
            ) {
                self.messages.push(StoredMessage { flight_id, message: m });
            }
            k += 1;
        }
    }

    /// The tips and warnings of a flight, in order of time.
    pub fn get_flight_messages(&self, flight_id: i64) -> (messages: Vec<FlightMessage>)
        ensures
            messages@ == flight_messages(self.messages@, flight_id),
            is_ordered(messages@),
    {
        let mut stored: Vec<FlightMessage> = Vec::new();
        let mut i: usize = 0;
        while i < self.messages.len()
            invariant
                i <= self.messages.len(),
                stored@ == stored_messages_upto(self.messages@, flight_id, i as int),
            decreases self.messages.len() - i,
        {
            if self.messages[i].flight_id == flight_id {
                stored.push(
                    FlightMessage {
                        timestamp_ms: self.messages[i].message.timestamp_ms,
                        message_type: self.messages[i].message.message_type.clone(),
                        message: self.messages[i].message.message.clone(),
                    },
                );
            }
            i += 1;
        }
        order_by_time(stored)
    }

    /// Deletes the tips and warnings of a flight.
    pub fn delete_flight_messages(&mut self, flight_id: i64)
        ensures
            final(self).messages@ == select(
                old(self).messages@,
                message_not_of(old(self).messages@, flight_id),
            ),
            final(self).flights == old(self).flights,
            final(self).telemetry == old(self).telemetry,
            final(self).tags == old(self).tags,
            final(self).notes == old(self).notes,
            final(self).settings == old(self).settings,
            final(self).equipment == old(self).equipment,
    {
        let mut keep: Vec<bool> = Vec::new();
        let mut i: usize = 0;
        while i < self.messages.len()
            invariant
                i <= self.messages.len(),
                *self == *old(self),
                keep@ =~= Seq::new(i as nat, |k: int| self.messages@[k].flight_id != flight_id),
            decreases self.messages.len() - i,
        {
            keep.push(self.messages[i].flight_id != flight_id);
            i += 1;
        }
        assert(keep@ =~= message_not_of(self.messages@, flight_id));
        retain_flagged(&mut self.messages, &keep);
    }
}

} // verus!
