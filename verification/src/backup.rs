//! Restoring a backup.
//!
//! A backup holds the tables of a store. Restoring it takes from the store
//! the rows whose keys the backup holds and then loads the rows of the
//! backup: a flight of the store goes where a flight of the backup has
//! its id or its content hash, and the telemetry, the tags, the notes and the
//! messages of a flight go where the backup holds any for that flight.
//! The name of a piece of equipment goes where the backup holds one for it. Writing the
//! tables to a file and reading them back is left to the program around
//! the library.

use std::collections::HashSet;
use vstd::prelude::*;
use vstd::std_specs::hash::group_hash_axioms;
use crate::database::{
    has_hash,
    keys_unique,
    lemma_select_keeps_keys_unique,
    Database,
    EquipmentName,
    StoredMessage,
    StoredNote,
    StoredPoint,
    StoredTag,
};
use crate::dedup::{has_id, ids_unique, lemma_select_keeps_ids_unique};
use crate::equipment::names_equipment;
use crate::models::{text_of, FlightMetadata};
use crate::table::{
    kept_indices, lemma_kept_indices, lemma_select_members, retain_flagged, select,
};
use crate::tags::is_text;

verus! {

broadcast use group_hash_axioms;

/// True when a flight of the store gives way to the backup: a flight of
/// the backup has its id or its content hash.
pub open spec fn gives_way(flight: FlightMetadata, backup: Seq<FlightMetadata>) -> bool {
    has_id(backup, flight.id) || (flight.file_hash is Some && has_hash(
        backup,
        flight.file_hash->0@,
    ))
}

/// Which flights of the store stay.
pub open spec fn flights_staying(flights: Seq<FlightMetadata>, backup: Seq<FlightMetadata>) -> Seq<
    bool,
> {
    Seq::new(flights.len(), |i: int| !gives_way(flights[i], backup))
}

/// True when the backup holds telemetry for the flight.
pub open spec fn has_telemetry_of(backup: Seq<StoredPoint>, flight_id: i64) -> bool {
    exists|i: int| 0 <= i < backup.len() && (#[trigger] backup[i]).flight_id == flight_id
}

/// True when the backup holds tags for the flight.
pub open spec fn has_tags_of(backup: Seq<StoredTag>, flight_id: i64) -> bool {
    exists|i: int| 0 <= i < backup.len() && (#[trigger] backup[i]).flight_id == flight_id
}

/// True when the backup holds notes for the flight.
pub open spec fn has_notes_of(backup: Seq<StoredNote>, flight_id: i64) -> bool {
    exists|i: int| 0 <= i < backup.len() && (#[trigger] backup[i]).flight_id == flight_id
}

/// Which points of the store stay.
pub open spec fn points_staying(telemetry: Seq<StoredPoint>, backup: Seq<StoredPoint>) -> Seq<bool> {
    Seq::new(telemetry.len(), |i: int| !has_telemetry_of(backup, telemetry[i].flight_id))
}

/// Which tags of the store stay.
pub open spec fn tags_staying(tags: Seq<StoredTag>, backup: Seq<StoredTag>) -> Seq<bool> {
    Seq::new(tags.len(), |i: int| !has_tags_of(backup, tags[i].flight_id))
}

/// Which notes of the store stay.
pub open spec fn notes_staying(notes: Seq<StoredNote>, backup: Seq<StoredNote>) -> Seq<bool> {
    Seq::new(notes.len(), |i: int| !has_notes_of(backup, notes[i].flight_id))
}

/// True when the backup holds messages for the flight.
pub open spec fn has_messages_of(backup: Seq<StoredMessage>, flight_id: i64) -> bool {
    exists|i: int| 0 <= i < backup.len() && (#[trigger] backup[i]).flight_id == flight_id
}

/// Which messages of the store stay.
pub open spec fn messages_staying(messages: Seq<StoredMessage>, backup: Seq<StoredMessage>) -> Seq<
    bool,
> {
    Seq::new(messages.len(), |i: int| !has_messages_of(backup, messages[i].flight_id))
}

/// The messages after a restore.
pub open spec fn restored_messages(messages: Seq<StoredMessage>, backup: Seq<StoredMessage>) -> Seq<
    StoredMessage,
> {
    select(messages, messages_staying(messages, backup)) + backup
}

/// True when the backup holds a name for the equipment.
pub open spec fn has_name_of(backup: Seq<EquipmentName>, serial: Seq<char>, equipment_type: Seq<char>) -> bool {
    exists|i: int|
        0 <= i < backup.len() && names_equipment(#[trigger] backup[i], serial, equipment_type)
}

/// Which names of the store stay.
pub open spec fn names_staying(names: Seq<EquipmentName>, backup: Seq<EquipmentName>) -> Seq<bool> {
    Seq::new(
        names.len(),
        |i: int| !has_name_of(backup, names[i].serial@, names[i].equipment_type@),
    )
}

/// The names of equipment after a restore.
pub open spec fn restored_equipment(names: Seq<EquipmentName>, backup: Seq<EquipmentName>) -> Seq<
    EquipmentName,
> {
    select(names, names_staying(names, backup)) + backup
}

/// The flights after a restore.
pub open spec fn restored_flights(flights: Seq<FlightMetadata>, backup: Seq<FlightMetadata>) -> Seq<
    FlightMetadata,
> {
    select(flights, flights_staying(flights, backup)) + backup
}

/// The telemetry after a restore.
pub open spec fn restored_telemetry(telemetry: Seq<StoredPoint>, backup: Seq<StoredPoint>) -> Seq<
    StoredPoint,
> {
    select(telemetry, points_staying(telemetry, backup)) + backup
}

/// The tags after a restore.
pub open spec fn restored_tags(tags: Seq<StoredTag>, backup: Seq<StoredTag>) -> Seq<StoredTag> {
    select(tags, tags_staying(tags, backup)) + backup
}

/// The notes after a restore.
pub open spec fn restored_notes(notes: Seq<StoredNote>, backup: Seq<StoredNote>) -> Seq<StoredNote> {
    select(notes, notes_staying(notes, backup)) + backup
}

/// Where none of the rows is flagged, none is left.
pub proof fn lemma_select_none<T>(rows: Seq<T>, keep: Seq<bool>)
    requires
        rows.len() == keep.len(),
        forall|i: int| 0 <= i < keep.len() ==> !#[trigger] keep[i],
    ensures
        select(rows, keep) == Seq::<T>::empty(),
{
    lemma_kept_indices(keep, rows.len() as int);
    let indices = kept_indices(keep, rows.len() as int);
    if indices.len() > 0 {
        assert(keep[indices[0]]);
    }
    assert(select(rows, keep) =~= Seq::<T>::empty());
}

/// A backup restored to the store that it was taken from leaves the store
/// as it was: every table holds the rows that it held, in their order.
pub proof fn lemma_restore_round_trip(
    flights: Seq<FlightMetadata>,
    telemetry: Seq<StoredPoint>,
    tags: Seq<StoredTag>,
    notes: Seq<StoredNote>,
    messages: Seq<StoredMessage>,
    names: Seq<EquipmentName>,
)
    ensures
        restored_equipment(names, names) == names,
        restored_flights(flights, flights) == flights,
        restored_telemetry(telemetry, telemetry) == telemetry,
        restored_tags(tags, tags) == tags,
        restored_notes(notes, notes) == notes,
        restored_messages(messages, messages) == messages,
{
    lemma_select_none(messages, messages_staying(messages, messages));
    lemma_select_none(names, names_staying(names, names));
    assert(Seq::<EquipmentName>::empty() + names =~= names);
    assert(Seq::<StoredMessage>::empty() + messages =~= messages);
    lemma_select_none(flights, flights_staying(flights, flights));
    lemma_select_none(telemetry, points_staying(telemetry, telemetry));
    lemma_select_none(tags, tags_staying(tags, tags));
    lemma_select_none(notes, notes_staying(notes, notes));
    assert(Seq::<FlightMetadata>::empty() + flights =~= flights);
    assert(Seq::<StoredPoint>::empty() + telemetry =~= telemetry);
    assert(Seq::<StoredTag>::empty() + tags =~= tags);
    assert(Seq::<StoredNote>::empty() + notes =~= notes);
}

/// A backup restored to an empty store gives a store that holds the
/// backup.
pub proof fn lemma_restore_to_empty(
    flights: Seq<FlightMetadata>,
    telemetry: Seq<StoredPoint>,
    tags: Seq<StoredTag>,
    notes: Seq<StoredNote>,
    messages: Seq<StoredMessage>,
    names: Seq<EquipmentName>,
)
    ensures
        restored_equipment(Seq::empty(), names) == names,
        restored_flights(Seq::empty(), flights) == flights,
        restored_telemetry(Seq::empty(), telemetry) == telemetry,
        restored_tags(Seq::empty(), tags) == tags,
        restored_notes(Seq::empty(), notes) == notes,
        restored_messages(Seq::empty(), messages) == messages,
{
    assert(restored_messages(Seq::empty(), messages) =~= messages);
    assert(restored_equipment(Seq::empty(), names) =~= names);
    assert(restored_flights(Seq::empty(), flights) =~= flights);
    assert(restored_telemetry(Seq::empty(), telemetry) =~= telemetry);
    assert(restored_tags(Seq::empty(), tags) =~= tags);
    assert(restored_notes(Seq::empty(), notes) =~= notes);
}

/// Restoring keeps the ids of flights unique.
proof fn lemma_restored_ids_unique(flights: Seq<FlightMetadata>, backup: Seq<FlightMetadata>)
    requires
        ids_unique(flights),
        ids_unique(backup),
    ensures
        ids_unique(restored_flights(flights, backup)),
{
    let keep = flights_staying(flights, backup);
    let stay = select(flights, keep);
    lemma_select_keeps_ids_unique(flights, keep);
    lemma_select_members(flights, keep);
    lemma_kept_indices(keep, flights.len() as int);
    let all = stay + backup;
    assert forall|i: int, j: int| 0 <= i < all.len() && 0 <= j < all.len() && i != j implies (
    #[trigger] all[i]).id != (#[trigger] all[j]).id by {
        if i < stay.len() && j < stay.len() {
            assert(all[i] == stay[i] && all[j] == stay[j]);
        } else if i >= stay.len() && j >= stay.len() {
            assert(all[i] == backup[i - stay.len()] && all[j] == backup[j - stay.len()]);
        } else if i < stay.len() {
            let k = kept_indices(keep, flights.len() as int)[i];
            assert(all[i] == flights[k] && keep[k]);
            assert(all[j] == backup[j - stay.len()]);
        } else {
            let k = kept_indices(keep, flights.len() as int)[j];
            assert(all[j] == flights[k] && keep[k]);
            assert(all[i] == backup[i - stay.len()]);
        }
    }
}

/// Restoring keeps the keys of points unique.
proof fn lemma_restored_keys_unique(telemetry: Seq<StoredPoint>, backup: Seq<StoredPoint>)
    requires
        keys_unique(telemetry),
        keys_unique(backup),
    ensures
        keys_unique(restored_telemetry(telemetry, backup)),
{
    let keep = points_staying(telemetry, backup);
    let stay = select(telemetry, keep);
    lemma_select_keeps_keys_unique(telemetry, keep);
    lemma_select_members(telemetry, keep);
    lemma_kept_indices(keep, telemetry.len() as int);
    let all = stay + backup;
    assert forall|i: int, j: int| 0 <= i < all.len() && 0 <= j < all.len() && i != j implies !((
    #[trigger] all[i]).flight_id == (#[trigger] all[j]).flight_id && all[i].point.timestamp_ms
        == all[j].point.timestamp_ms) by {
        if i < stay.len() && j < stay.len() {
            assert(all[i] == stay[i] && all[j] == stay[j]);
        } else if i >= stay.len() && j >= stay.len() {
            assert(all[i] == backup[i - stay.len()] && all[j] == backup[j - stay.len()]);
        } else if i < stay.len() {
            let k = kept_indices(keep, telemetry.len() as int)[i];
            assert(all[i] == telemetry[k] && keep[k]);
            assert(all[j] == backup[j - stay.len()]);
        } else {
            let k = kept_indices(keep, telemetry.len() as int)[j];
            assert(all[j] == telemetry[k] && keep[k]);
            assert(all[i] == backup[i - stay.len()]);
        }
    }
}

/// The ids of the flights that rows belong to, as a set.
fn flight_ids_of_points(rows: &Vec<StoredPoint>) -> (ids: HashSet<i64>)
    ensures
        forall|id: i64| ids@.contains(id) <==> has_telemetry_of(rows@, id),
{
    let mut ids: HashSet<i64> = HashSet::new();
    let mut i: usize = 0;
    while i < rows.len()
        invariant
            i <= rows.len(),
            forall|id: i64|
                ids@.contains(id) <==> exists|k: int|
                    0 <= k < i && (#[trigger] rows@[k]).flight_id == id,
        decreases rows.len() - i,
    {
        let ghost before = ids@;
        let id = rows[i].flight_id;
        ids.insert(id);
        proof {
            assert forall|x: i64|
                ids@.contains(x) <==> exists|k: int|
                    0 <= k < i + 1 && (#[trigger] rows@[k]).flight_id == x by {
                if before.contains(x) {
                    let k = choose|k: int| 0 <= k < i && (#[trigger] rows@[k]).flight_id == x;
                    assert(0 <= k < i + 1 && rows@[k].flight_id == x);
                }
                if x == id {
                    assert(rows@[i as int].flight_id == x);
                }
            }
        }
        i += 1;
    }
    ids
}

fn flight_ids_of_tags(rows: &Vec<StoredTag>) -> (ids: HashSet<i64>)
    ensures
        forall|id: i64| ids@.contains(id) <==> has_tags_of(rows@, id),
{
    let mut ids: HashSet<i64> = HashSet::new();
    let mut i: usize = 0;
    while i < rows.len()
        invariant
            i <= rows.len(),
            forall|id: i64|
                ids@.contains(id) <==> exists|k: int|
                    0 <= k < i && (#[trigger] rows@[k]).flight_id == id,
        decreases rows.len() - i,
    {
        let ghost before = ids@;
        let id = rows[i].flight_id;
        ids.insert(id);
        proof {
            assert forall|x: i64|
                ids@.contains(x) <==> exists|k: int|
                    0 <= k < i + 1 && (#[trigger] rows@[k]).flight_id == x by {
                if before.contains(x) {
                    let k = choose|k: int| 0 <= k < i && (#[trigger] rows@[k]).flight_id == x;
                    assert(0 <= k < i + 1 && rows@[k].flight_id == x);
                }
                if x == id {
                    assert(rows@[i as int].flight_id == x);
                }
            }
        }
        i += 1;
    }
    ids
}

fn flight_ids_of_notes(rows: &Vec<StoredNote>) -> (ids: HashSet<i64>)
    ensures
        forall|id: i64| ids@.contains(id) <==> has_notes_of(rows@, id),
{
    let mut ids: HashSet<i64> = HashSet::new();
    let mut i: usize = 0;
    while i < rows.len()
        invariant
            i <= rows.len(),
            forall|id: i64|
                ids@.contains(id) <==> exists|k: int|
                    0 <= k < i && (#[trigger] rows@[k]).flight_id == id,
        decreases rows.len() - i,
    {
        let ghost before = ids@;
        let id = rows[i].flight_id;
        ids.insert(id);
        proof {
            assert forall|x: i64|
                ids@.contains(x) <==> exists|k: int|
                    0 <= k < i + 1 && (#[trigger] rows@[k]).flight_id == x by {
                if before.contains(x) {
                    let k = choose|k: int| 0 <= k < i && (#[trigger] rows@[k]).flight_id == x;
                    assert(0 <= k < i + 1 && rows@[k].flight_id == x);
                }
                if x == id {
                    assert(rows@[i as int].flight_id == x);
                }
            }
        }
        i += 1;
    }
    ids
}

fn flight_ids_of_messages(rows: &Vec<StoredMessage>) -> (ids: HashSet<i64>)
    ensures
        forall|id: i64| ids@.contains(id) <==> has_messages_of(rows@, id),
{
    let mut ids: HashSet<i64> = HashSet::new();
    let mut i: usize = 0;
    while i < rows.len()
        invariant
            i <= rows.len(),
            forall|id: i64|
                ids@.contains(id) <==> exists|k: int|
                    0 <= k < i && (#[trigger] rows@[k]).flight_id == id,
        decreases rows.len() - i,
    {
        let ghost before = ids@;
        let id = rows[i].flight_id;
        ids.insert(id);
        proof {
            assert forall|x: i64|
                ids@.contains(x) <==> exists|k: int|
                    0 <= k < i + 1 && (#[trigger] rows@[k]).flight_id == x by {
                if before.contains(x) {
                    let k = choose|k: int| 0 <= k < i && (#[trigger] rows@[k]).flight_id == x;
                    assert(0 <= k < i + 1 && rows@[k].flight_id == x);
                }
                if x == id {
                    assert(rows@[i as int].flight_id == x);
                }
            }
        }
        i += 1;
    }
    ids
}

fn check_has_name(backup: &Vec<EquipmentName>, serial: &str, equipment_type: &str) -> (r: bool)
    ensures
        r == has_name_of(backup@, serial@, equipment_type@),
{
    let mut i: usize = 0;
    while i < backup.len()
        invariant
            i <= backup.len(),
            forall|k: int|
                0 <= k < i ==> !names_equipment(#[trigger] backup@[k], serial@, equipment_type@),
        decreases backup.len() - i,
    {
        if is_text(backup[i].serial.as_str(), serial) && is_text(
            backup[i].equipment_type.as_str(),
            equipment_type,
        ) {
            return true;
        }
        i += 1;
    }
    false
}

fn check_gives_way(flight: &FlightMetadata, backup: &Vec<FlightMetadata>) -> (r: bool)
    ensures
        r == gives_way(*flight, backup@),
{
    let mut i: usize = 0;
    while i < backup.len()
        invariant
            i <= backup.len(),
            forall|k: int| 0 <= k < i ==> (#[trigger] backup@[k]).id != flight.id,
            flight.file_hash is Some ==> forall|k: int|
                0 <= k < i ==> text_of((#[trigger] backup@[k]).file_hash) != Some(
                    flight.file_hash->0@,
                ),
        decreases backup.len() - i,
    {
        if backup[i].id == flight.id {
            return true;
        }
        match (&flight.file_hash, &backup[i].file_hash) {
            (Some(a), Some(b)) => {
                if is_text(a.as_str(), b.as_str()) {
                    assert(text_of(backup@[i as int].file_hash) == Some(a@));
                    return true;
                }
            },
            _ => {},
        }
        i += 1;
    }
    false
}

impl Database {
    /// Restores a backup into the store. The rows of the store whose keys
    /// the backup holds give way, the rows of the backup are loaded behind
    /// those that stay. The settings of the store stay as they are. The
    /// answer is the number of flights that the backup held.
    pub fn import_backup(&mut self, backup: Database) -> (restored: usize)
        requires
            old(self).well_formed(),
            backup.well_formed(),
        ensures
            final(self).well_formed(),
            restored == backup.flights@.len(),
            final(self).flights@ == restored_flights(old(self).flights@, backup.flights@),
            final(self).telemetry@ == restored_telemetry(
                old(self).telemetry@,
                backup.telemetry@,
            ),
            final(self).tags@ == restored_tags(old(self).tags@, backup.tags@),
            final(self).notes@ == restored_notes(old(self).notes@, backup.notes@),
            final(self).messages@ == restored_messages(old(self).messages@, backup.messages@),
            final(self).equipment@ == restored_equipment(old(self).equipment@, backup.equipment@),
            final(self).settings == old(self).settings,
    {
        let restored = backup.flights.len();
        let mut keep: Vec<bool> = Vec::new();
        let mut i: usize = 0;
        while i < self.flights.len()
            invariant
                i <= self.flights.len(),
                *self == *old(self),
                keep@ =~= Seq::new(i as nat, |k: int| !gives_way(self.flights@[k], backup.flights@)),
            decreases self.flights.len() - i,
        {
            keep.push(!check_gives_way(&self.flights[i], &backup.flights));
            i += 1;
        }
        proof {
            assert(keep@ =~= flights_staying(self.flights@, backup.flights@));
            lemma_restored_ids_unique(self.flights@, backup.flights@);
            lemma_restored_keys_unique(self.telemetry@, backup.telemetry@);
        }
        retain_flagged(&mut self.flights, &keep);
        let mut incoming_flights = backup.flights;
        self.flights.append(&mut incoming_flights);

        let with_points = flight_ids_of_points(&backup.telemetry);
        let mut keep_points: Vec<bool> = Vec::new();
        let mut i: usize = 0;
        while i < self.telemetry.len()
            invariant
                i <= self.telemetry.len(),
                self.telemetry == old(self).telemetry,
                forall|id: i64| with_points@.contains(id) <==> has_telemetry_of(backup.telemetry@, id),
                keep_points@ =~= Seq::new(
                    i as nat,
                    |k: int| !has_telemetry_of(backup.telemetry@, self.telemetry@[k].flight_id),
                ),
            decreases self.telemetry.len() - i,
        {
            keep_points.push(!with_points.contains(&self.telemetry[i].flight_id));
            i += 1;
        }
        assert(keep_points@ =~= points_staying(self.telemetry@, backup.telemetry@));
        retain_flagged(&mut self.telemetry, &keep_points);
        let mut incoming_points = backup.telemetry;
        self.telemetry.append(&mut incoming_points);

        let with_tags = flight_ids_of_tags(&backup.tags);
        let mut keep_tags: Vec<bool> = Vec::new();
        let mut i: usize = 0;
        while i < self.tags.len()
            invariant
                i <= self.tags.len(),
                self.tags == old(self).tags,
                forall|id: i64| with_tags@.contains(id) <==> has_tags_of(backup.tags@, id),
                keep_tags@ =~= Seq::new(
                    i as nat,
                    |k: int| !has_tags_of(backup.tags@, self.tags@[k].flight_id),
                ),
            decreases self.tags.len() - i,
        {
            keep_tags.push(!with_tags.contains(&self.tags[i].flight_id));
            i += 1;
        }
        assert(keep_tags@ =~= tags_staying(self.tags@, backup.tags@));
        retain_flagged(&mut self.tags, &keep_tags);
        let mut incoming_tags = backup.tags;
        self.tags.append(&mut incoming_tags);

        let with_notes = flight_ids_of_notes(&backup.notes);
        let mut keep_notes: Vec<bool> = Vec::new();
        let mut i: usize = 0;
        while i < self.notes.len()
            invariant
                i <= self.notes.len(),
                self.notes == old(self).notes,
                forall|id: i64| with_notes@.contains(id) <==> has_notes_of(backup.notes@, id),
                keep_notes@ =~= Seq::new(
                    i as nat,
                    |k: int| !has_notes_of(backup.notes@, self.notes@[k].flight_id),
                ),
            decreases self.notes.len() - i,
        {
            keep_notes.push(!with_notes.contains(&self.notes[i].flight_id));
            i += 1;
        }
        assert(keep_notes@ =~= notes_staying(self.notes@, backup.notes@));
        retain_flagged(&mut self.notes, &keep_notes);
        let mut incoming_notes = backup.notes;
        self.notes.append(&mut incoming_notes);

        let with_messages = flight_ids_of_messages(&backup.messages);
        let mut keep_messages: Vec<bool> = Vec::new();
        let mut i: usize = 0;
        while i < self.messages.len()
            invariant
                i <= self.messages.len(),
                self.messages == old(self).messages,
                forall|id: i64| with_messages@.contains(id) <==> has_messages_of(backup.messages@, id),
                keep_messages@ =~= Seq::new(
                    i as nat,
                    |k: int| !has_messages_of(backup.messages@, self.messages@[k].flight_id),
                ),
            decreases self.messages.len() - i,
        {
            keep_messages.push(!with_messages.contains(&self.messages[i].flight_id));
            i += 1;
        }
        assert(keep_messages@ =~= messages_staying(self.messages@, backup.messages@));
        retain_flagged(&mut self.messages, &keep_messages);
        let mut incoming_messages = backup.messages;
        self.messages.append(&mut incoming_messages);
        let mut keep_names: Vec<bool> = Vec::new();
        let mut i: usize = 0;
        while i < self.equipment.len()
            invariant
                i <= self.equipment.len(),
                self.equipment == old(self).equipment,
                keep_names@ =~= Seq::new(
                    i as nat,
                    |k: int|
                        !has_name_of(
                            backup.equipment@,
                            self.equipment@[k].serial@,
                            self.equipment@[k].equipment_type@,
                        ),
                ),
            decreases self.equipment.len() - i,
        {
            keep_names.push(
                !check_has_name(
                    &backup.equipment,
                    self.equipment[i].serial.as_str(),
                    self.equipment[i].equipment_type.as_str(),
                ),
            );
            i += 1;
        }
        assert(keep_names@ =~= names_staying(self.equipment@, backup.equipment@));
        retain_flagged(&mut self.equipment, &keep_names);
        let mut incoming_names = backup.equipment;
        self.equipment.append(&mut incoming_names);
        restored
    }
}

} // verus!
