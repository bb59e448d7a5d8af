//! Importing a parsed flight into the store, and what is reported back.
//!
//! One file is one unit: either its flight, its telemetry and its tags are
//! all in the store afterwards, or nothing of it is. A file that fails
//! takes nothing from the files before it.

use vstd::prelude::*;
use crate::database::{
    has_hash,
    loaded,
    tag_rows,
    tagged_upto,
    note_rows,
    note_not_of,
    notes_to_store,
    Database,
};
use crate::dedup::has_id;
use crate::dronelogbook_parser::member_value;
use crate::json::{json_of, parse_json, Json, JsonView};
use crate::models::{text_of, FlightMetadata, ImportResult};
use crate::numbers::{decimal_text, write_decimal};
use crate::parser::{join2, join3, ParseResult, ParserError};
use crate::table::select;
use crate::tags::{filter, filtered_tags, is_text};
use crate::text::{lemma_texts_push, texts};

verus! {

/// What the settings file says about smart tags.
#[derive(Debug, Clone, PartialEq, Eq)]
pub struct ImportConfig {
    /// True unless smart tags are switched off.
    pub smart_tags_enabled: bool,
    /// The rules that are enabled, where the file names any.
    pub enabled_tag_types: Option<Vec<String>>,
}

/// The texts of an optional list.
pub open spec fn list_view(list: Option<Vec<String>>) -> Option<Seq<Seq<char>>> {
    match list {
        Some(l) => Some(texts(l@)),
        None => None,
    }
}

/// The texts among the first `n` elements of a JSON array.
pub open spec fn text_elements(elements: Seq<Seq<char>>, n: int) -> Seq<Seq<char>>
    decreases n,
{
    if n <= 0 {
        Seq::empty()
    } else {
        let before = text_elements(elements, n - 1);
        match json_of(elements[n - 1]) {
            Some(JsonView::Text(t)) => before.push(t),
            _ => before,
        }
    }
}

/// Whether smart tags are enabled according to the members of the settings
/// object: they are, unless the member `smart_tags_enabled` is `false`.
pub open spec fn enabled_by(members: Seq<(Seq<char>, Seq<char>)>) -> bool {
    match member_value(members, "smart_tags_enabled"@, members.len() as int) {
        Some(value) => match json_of(value) {
            Some(JsonView::Bool(b)) => b,
            _ => true,
        },
        None => true,
    }
}

/// The enabled rules according to the members of the settings object: the
/// texts of the array `enabled_tag_types`, where there is one.
pub open spec fn types_by(members: Seq<(Seq<char>, Seq<char>)>) -> Option<Seq<Seq<char>>> {
    match member_value(members, "enabled_tag_types"@, members.len() as int) {
        Some(value) => match json_of(value) {
            Some(JsonView::Array(elements)) => Some(
                text_elements(elements, elements.len() as int),
            ),
            _ => None,
        },
        None => None,
    }
}

/// The members of the settings object; none where there is no settings
/// file or where it is no JSON object.
pub open spec fn config_members(config: Option<Seq<char>>) -> Seq<(Seq<char>, Seq<char>)> {
    match config {
        Some(text) => match json_of(text) {
            Some(JsonView::Object(members)) => members,
            _ => Seq::empty(),
        },
        None => Seq::empty(),
    }
}

fn find_member(members: &Vec<(String, String)>, key: &str) -> (r: Option<usize>)
    ensures
        r is Some == member_value(
            crate::dronelogbook_parser::pair_texts(members@),
            key@,
            members@.len() as int,
        ) is Some,
        r matches Some(i) ==> i < members@.len() && member_value(
            crate::dronelogbook_parser::pair_texts(members@),
            key@,
            members@.len() as int,
        ) == Some(members@[i as int].1@),
{
    let mut i: usize = members.len();
    while i > 0
        invariant
            i <= members.len(),
            member_value(
                crate::dronelogbook_parser::pair_texts(members@),
                key@,
                members@.len() as int,
            ) == member_value(crate::dronelogbook_parser::pair_texts(members@), key@, i as int),
        decreases i,
    {
        assert(crate::dronelogbook_parser::pair_texts(members@)[i - 1] == (
            members@[i - 1].0@,
            members@[i - 1].1@,
        ));
        if is_text(members[i - 1].0.as_str(), key) {
            return Some(i - 1);
        }
        i -= 1;
    }
    None
}

fn read_text_elements(elements: &Vec<String>) -> (r: Vec<String>)
    ensures
        texts(r@) == text_elements(texts(elements@), elements@.len() as int),
{
    let mut r: Vec<String> = Vec::new();
    let mut i: usize = 0;
    assert(texts(r@) =~= text_elements(texts(elements@), 0));
    while i < elements.len()
        invariant
            i <= elements.len(),
            texts(r@) == text_elements(texts(elements@), i as int),
        decreases elements.len() - i,
    {
        assert(texts(elements@)[i as int] == elements@[i as int]@);
        match parse_json(elements[i].as_str()) {
            Some(Json::Text(t)) => {
                proof {
                    lemma_texts_push(r@, t);
                }
                r.push(t);
            },
            _ => {},
        }
        i += 1;
    }
    r
}

/// Reads from the text of the settings file what it says about smart
/// tags. Without a file, and with one that is no JSON object, smart tags
/// are enabled and no rules are named.
pub fn read_import_config(config: Option<&str>) -> (r: ImportConfig)
    ensures
        r.smart_tags_enabled == enabled_by(config_members(crate::database::str_view(config))),
        list_view(r.enabled_tag_types) == types_by(
            config_members(crate::database::str_view(config)),
        ),
{
    let members: Vec<(String, String)> = match config {
        Some(text) => match parse_json(text) {
            Some(Json::Object(m)) => m,
            _ => Vec::new(),
        },
        None => Vec::new(),
    };
    proof {
        assert(crate::dronelogbook_parser::pair_texts(members@) =~= config_members(
            crate::database::str_view(config),
        ));
    }
    let enabled = match find_member(&members, "smart_tags_enabled") {
        Some(i) => match parse_json(members[i].1.as_str()) {
            Some(Json::Bool(b)) => b,
            _ => true,
        },
        None => true,
    };
    let types = match find_member(&members, "enabled_tag_types") {
        Some(i) => match parse_json(members[i].1.as_str()) {
            Some(Json::Array(elements)) => {
                assert(texts(elements@) =~= json_of(members@[i as int].1@)->0->Array_0);
                Some(read_text_elements(&elements))
            },
            _ => None,
        },
        None => None,
    };
    ImportConfig { smart_tags_enabled: enabled, enabled_tag_types: types }
}

/// The identifiers of all the rules, place names included.
pub open spec fn all_tag_types() -> Seq<Seq<char>> {
    seq![
        "night_flight"@,
        "high_speed"@,
        "cold_battery"@,
        "heavy_load"@,
        "low_battery"@,
        "high_altitude"@,
        "long_distance"@,
        "long_flight"@,
        "short_flight"@,
        "aggressive_flying"@,
        "no_gps"@,
        "country"@,
        "continent"@,
    ]
}

/// The identifiers of all the rules: what is enabled where the settings
/// name nothing.
pub fn default_tag_types() -> (r: Vec<String>)
    ensures
        texts(r@) == all_tag_types(),
{
    let mut r: Vec<String> = Vec::new();
    r.push("night_flight".to_owned());
    r.push("high_speed".to_owned());
    r.push("cold_battery".to_owned());
    r.push("heavy_load".to_owned());
    r.push("low_battery".to_owned());
    r.push("high_altitude".to_owned());
    r.push("long_distance".to_owned());
    r.push("long_flight".to_owned());
    r.push("short_flight".to_owned());
    r.push("aggressive_flying".to_owned());
    r.push("no_gps".to_owned());
    r.push("country".to_owned());
    r.push("continent".to_owned());
    assert(texts(r@) =~= all_tag_types());
    r
}

/// The automatic tags that an import stores: none where smart tags are
/// switched off, those of the enabled rules where rules are named, all
/// otherwise.
pub open spec fn tags_to_store(
    tags: Seq<Seq<char>>,
    enabled: bool,
    types: Option<Seq<Seq<char>>>,
) -> Seq<Seq<char>> {
    if !enabled {
        Seq::empty()
    } else {
        match types {
            Some(t) => filtered_tags(tags, t),
            None => tags,
        }
    }
}

/// What the report says of a flight that went in.
pub open spec fn success_message(points: nat) -> Seq<char> {
    "Successfully imported "@ + decimal_text(points) + " telemetry points"@
}

/// What the report says of a file that gave no flight.
pub open spec fn failure_message(error: ParserError) -> Seq<char> {
    match error {
        ParserError::AlreadyImported(name) => "This flight log has already been imported (matches: "@
            + name@ + ")"@,
        _ => "Failed to parse log: "@ + error.text(),
    }
}

/// The report on a file that gave no flight. A file that was imported
/// before is no fault of the file: the report says which flight it
/// matches.
pub fn import_failure(error: &ParserError) -> (r: ImportResult)
    ensures
        !r.success,
        r.flight_id is None,
        r.point_count == 0,
        r.file_hash is None,
        r.message@ == failure_message(*error),
{
    let message = match error {
        ParserError::AlreadyImported(name) => join3(
            "This flight log has already been imported (matches: ",
            name.as_str(),
            ")",
        ),
        _ => {
            let text = error.message();
            join2("Failed to parse log: ", text.as_str())
        },
    };
    ImportResult { success: false, flight_id: None, message, point_count: 0, file_hash: None }
}

/// The report on a file that is not there.
pub fn file_not_found() -> (r: ImportResult)
    ensures
        !r.success,
        r.flight_id is None,
        r.point_count == 0,
        r.file_hash is None,
        r.message@ == "File not found"@,
{
    ImportResult {
        success: false,
        flight_id: None,
        message: "File not found".to_owned(),
        point_count: 0,
        file_hash: None,
    }
}

/// True when the store takes a flight: no stored flight has its id or its
/// content hash.
pub open spec fn is_insertable(db: Database, metadata: FlightMetadata) -> bool {
    !has_id(db.flights@, metadata.id) && !(metadata.file_hash is Some && has_hash(
        db.flights@,
        metadata.file_hash->0@,
    ))
}

/// The table of notes after an import: where the file brought notes,
/// they take the place of the notes of the flight, and blank notes leave
/// the flight without; where it brought none, the table is as it was.
pub open spec fn imported_notes(
    notes: Seq<crate::database::StoredNote>,
    flight_id: i64,
    brought: Option<Seq<char>>,
) -> Seq<(i64, Seq<char>)> {
    match brought {
        Some(text) => match notes_to_store(Some(text)) {
            Some(stored) => select(note_rows(notes), note_not_of(notes, flight_id)).push(
                (flight_id, stored),
            ),
            None => select(note_rows(notes), note_not_of(notes, flight_id)),
        },
        None => note_rows(notes),
    }
}

fn copy_text(text: &Option<String>) -> (r: Option<String>)
    ensures
        text_of(r) == text_of(*text),
{
    match text {
        Some(t) => Some(t.clone()),
        None => None,
    }
}

impl Database {
    /// Imports a parsed flight: the flight is stored, then its telemetry,
    /// then its automatic tags as far as the settings enable them, then
    /// its manual tags and its notes. The store refuses a flight whose id
    /// or content hash a stored flight has: nothing of it is stored then,
    /// and the refusal is the answer. A flight with the aircraft, the
    /// battery and the start of a stored flight but other bytes goes in
    /// beside it; which of the two stays is for
    /// [`Database::deduplicate_flights`] to say.
    pub fn import_flight(&mut self, parsed: ParseResult, config: &ImportConfig) -> (r: Result<
        ImportResult,
        String,
    >)
        requires
            old(self).well_formed(),
        ensures
            final(self).well_formed(),
            final(self).settings == old(self).settings,
            final(self).equipment == old(self).equipment,
            final(self).messages == old(self).messages,
            r is Ok <==> is_insertable(*old(self), parsed.metadata),
            r matches Err(e) ==> *final(self) == *old(self) && e@
                == "Failed to insert flight: the store holds it already"@,
            r matches Ok(report) ==> {
                &&& text_of(report.file_hash) == text_of(parsed.metadata.file_hash)
                &&& report.success
                &&& {
                    &&& report.flight_id == Some(parsed.metadata.id)
                    &&& final(self).flights@ == old(self).flights@.push(parsed.metadata)
                    &&& final(self).telemetry@ == loaded(
                        old(self).telemetry@,
                        parsed.metadata.id,
                        parsed.points@,
                    )
                    &&& report.point_count == final(self).telemetry@.len() - old(
                        self,
                    ).telemetry@.len()
                    &&& report.message@ == success_message(report.point_count as nat)
                    &&& tag_rows(final(self).tags@) == tagged_upto(
                        tagged_upto(
                            tag_rows(old(self).tags@),
                            parsed.metadata.id,
                            tags_to_store(
                                texts(parsed.tags@),
                                config.smart_tags_enabled,
                                list_view(config.enabled_tag_types),
                            ),
                            "auto"@,
                            tags_to_store(
                                texts(parsed.tags@),
                                config.smart_tags_enabled,
                                list_view(config.enabled_tag_types),
                            ).len() as int,
                        ),
                        parsed.metadata.id,
                        texts(parsed.manual_tags@),
                        "manual"@,
                        parsed.manual_tags@.len() as int,
                    )
                    &&& note_rows(final(self).notes@) == imported_notes(
                        old(self).notes@,
                        parsed.metadata.id,
                        text_of(parsed.notes),
                    )
                }
            },
    {
        let file_hash = copy_text(&parsed.metadata.file_hash);
        let flight_id = match self.insert_flight(parsed.metadata) {
            Ok(id) => id,
            Err(_) => {
                return Err("Failed to insert flight: the store holds it already".to_owned());
            },
        };
        let point_count = self.bulk_insert_telemetry(flight_id, parsed.points);
        let tags: Vec<String> = if config.smart_tags_enabled {
            match &config.enabled_tag_types {
                Some(types) => filter(parsed.tags, types),
                None => parsed.tags,
            }
        } else {
            let none: Vec<String> = Vec::new();
            assert(texts(none@) =~= Seq::<Seq<char>>::empty());
            none
        };
        self.insert_flight_tags(flight_id, &tags);
        let mut i: usize = 0;
        let ghost tagged = tag_rows(self.tags@);
        while i < parsed.manual_tags.len()
            invariant
                i <= parsed.manual_tags.len(),
                self.well_formed(),
                self.flights@ == old(self).flights@.push(parsed.metadata),
                self.telemetry@ == loaded(old(self).telemetry@, flight_id, parsed.points@),
                self.notes == old(self).notes,
                self.settings == old(self).settings,
                self.equipment == old(self).equipment,
                self.messages == old(self).messages,
                tag_rows(self.tags@) == tagged_upto(
                    tagged,
                    flight_id,
                    texts(parsed.manual_tags@),
                    "manual"@,
                    i as int,
                ),
            decreases parsed.manual_tags.len() - i,
        {
            let ghost before = tag_rows(self.tags@);
            assert(texts(parsed.manual_tags@)[i as int] == parsed.manual_tags@[i as int]@);
            self.add_flight_tag(flight_id, parsed.manual_tags[i].as_str());
            proof {
                let one = seq![parsed.manual_tags@[i as int]@];
                assert(tagged_upto(before, flight_id, one, "manual"@, 0) == before);
                assert(one[0] == texts(parsed.manual_tags@)[i as int]);
            }
            i += 1;
        }
        match &parsed.notes {
            Some(text) => {
                self.update_flight_notes(flight_id, Some(text.as_str()));
            },
            None => {},
        }
        let count = write_decimal(point_count as u64);
        Ok(
            ImportResult {
                success: true,
                flight_id: Some(flight_id),
                message: join3("Successfully imported ", count.as_str(), " telemetry points"),
                point_count,
                file_hash,
            },
        )
    }
}

} // verus!
