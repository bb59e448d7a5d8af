//! CSV files that this logbook exported, read back in.
//!
//! The header names the columns; a column `metadata` holds, in the first
//! row, a JSON object with what the logbook knew of the flight: its name,
//! the serial numbers, the start time, the home position, its tags.

use vstd::prelude::*;
use crate::json::{json_of, parse_json, Json, JsonView};
use crate::litchi_parser::{find_name, last_index_of_name};
use crate::csv::{
    data_rows, find_filled, first_filled, header_fields, read_rows, row_texts, split_header,
};
use crate::frames::{clamp_i64, sane_point, sanitize_point};
use crate::models::{
    point_views, text_of, FlightMetadata, FlightMetadataView, FlightStats, TelemetryPoint,
    TelemetryPointView,
};
use crate::ordering::{is_ordered, order_by_time, stable_sorted};
use crate::parser::{
    count_points, display_name, display_name_of, failure_of, normalize_serial,
    normalized_serial, point_count_of, Draft, LogFormat, ParserError, ParserErrorView,
    SourceFile,
};
use crate::stats::{
    column_of_points, count_shots, first_of, first_present, largest, last_of, last_present,
    max_present, min_present, points_column, positive_or_zero, shot_count, smallest, value_or_zero,
    widen, Camera, Quantity,
};
use crate::timestamps::{
    extract_datetime_from_filename, flexible_instant, instant_in_file_name,
    parse_timestamp_flexible,
};
use crate::numbers::{
    begins_no_number, decimal_literal, in_i32, in_i64, int_literal, lemma_no_number,
    parse_decimal, parse_i32, COORD_SCALE, MILLI_SCALE,
};
use crate::tags::is_text;
use crate::text::{
    chars_of,
    contains,
    contains_text,
    eq_ignore_ascii_case,
    is_blank,
    lemma_texts_push,
    lowercase_of,
    same_ignoring_ascii_case,
    string_of,
    texts,
    to_lowercase,
    trim,
    trimmed,
};

verus! {

/// The columns of a file: the name of each column in lower case.
#[derive(Debug, Clone, PartialEq, Eq)]
pub struct ColumnMap {
    pub names: Vec<String>,
}

/// What a [`ColumnMap`] holds.
pub struct Columns {
    pub names: Seq<Seq<char>>,
}

impl View for ColumnMap {
    type V = Columns;

    open spec fn view(&self) -> Columns {
        Columns { names: texts(self.names@) }
    }
}

/// The columns that headers name.
pub open spec fn columns_of(headers: Seq<Seq<char>>) -> Columns {
    Columns { names: Seq::new(headers.len(), |i: int| lowercase_of(headers[i])) }
}

/// The flag that a text writes.
pub open spec fn flag_of_text(text: Seq<char>) -> Option<bool> {
    if text == "1"@ || text == "true"@ || text == "True"@ || text == "TRUE"@ {
        Some(true)
    } else if text == "0"@ || text == "false"@ || text == "False"@ || text == "FALSE"@ {
        Some(false)
    } else {
        None
    }
}

impl Columns {
    /// The index of the column `field`, whatever its case: the last column
    /// of that name.
    pub open spec fn index_of(&self, field: Seq<char>) -> Option<int> {
        last_index_of_name(self.names, lowercase_of(field), self.names.len() as int)
    }

    /// The text of the column `field` in `row` without the white space
    /// around it, where the column is there, the row is long enough and
    /// the cell is not blank.
    pub open spec fn cell(&self, row: Seq<Seq<char>>, field: Seq<char>) -> Option<Seq<char>> {
        match self.index_of(field) {
            Some(i) => if i < row.len() && !is_blank(row[i]) {
                Some(trimmed(row[i]))
            } else {
                None
            },
            None => None,
        }
    }

    /// The whole number in the column `field` of `row`.
    pub open spec fn int_cell(&self, row: Seq<Seq<char>>, field: Seq<char>) -> Option<i32> {
        match self.cell(row, field) {
            Some(text) => in_i32(int_literal(text)),
            None => None,
        }
    }

    /// The flag in the column `field` of `row`.
    pub open spec fn flag_cell(&self, row: Seq<Seq<char>>, field: Seq<char>) -> Option<bool> {
        match self.cell(row, field) {
            Some(text) => flag_of_text(text),
            None => None,
        }
    }

    /// The measurement in the column `field` of `row`, in thousandths.
    pub open spec fn milli_cell(&self, row: Seq<Seq<char>>, field: Seq<char>) -> Option<i64> {
        match self.cell(row, field) {
            Some(text) => in_i64(decimal_literal(text, MILLI_SCALE as nat)),
            None => None,
        }
    }

    /// The coordinate in the column `field` of `row`, in units of 1e-7
    /// degree.
    pub open spec fn coordinate_cell(&self, row: Seq<Seq<char>>, field: Seq<char>) -> Option<i64> {
        match self.cell(row, field) {
            Some(text) => in_i64(decimal_literal(text, COORD_SCALE as nat)),
            None => None,
        }
    }
}

/// Reads the flag that a text writes: `1` and `true` for true, `0` and
/// `false` for false, the words in small letters, capitalised or in
/// capitals.
pub fn read_flag(text: &str) -> (r: Option<bool>)
    ensures
        r == flag_of_text(text@),
{
    if is_text(text, "1") || is_text(text, "true") || is_text(text, "True") || is_text(
        text,
        "TRUE",
    ) {
        Some(true)
    } else if is_text(text, "0") || is_text(text, "false") || is_text(text, "False") || is_text(
        text,
        "FALSE",
    ) {
        Some(false)
    } else {
        None
    }
}

impl ColumnMap {
    /// Reads the columns from the headers of a file.
    pub fn new(headers: &Vec<String>) -> (map: ColumnMap)
        ensures
            map@ == columns_of(texts(headers@)),
    {
        let mut names: Vec<String> = Vec::new();
        let mut i: usize = 0;
        while i < headers.len()
            invariant
                i <= headers.len(),
                texts(names@) =~= Seq::new(i as nat, |k: int| lowercase_of(headers@[k]@)),
            decreases headers.len() - i,
        {
            let name = to_lowercase(headers[i].as_str());
            proof {
                lemma_texts_push(names@, name);
            }
            names.push(name);
            i += 1;
        }
        proof {
            assert(texts(names@) =~= columns_of(texts(headers@)).names);
        }
        ColumnMap { names }
    }

    /// The text of the column `field` in `row`, without the white space
    /// around it; nothing for a blank cell.
    pub fn get_str(&self, row: &Vec<String>, field: &str) -> (r: Option<String>)
        ensures
            text_of(r) == self@.cell(texts(row@), field@),
    {
        let lowered = to_lowercase(field);
        match find_name(&self.names, lowered.as_str()) {
            Some(i) => if i < row.len() {
                let cell = trim(&chars_of(row[i].as_str()));
                if cell.len() == 0 {
                    None
                } else {
                    Some(string_of(&cell))
                }
            } else {
                None
            },
            None => None,
        }
    }

    /// The whole number in the column `field` of `row`.
    pub fn get_i32(&self, row: &Vec<String>, field: &str) -> (r: Option<i32>)
        ensures
            r == self@.int_cell(texts(row@), field@),
    {
        match self.get_str(row, field) {
            Some(text) => parse_i32(&chars_of(text.as_str())),
            None => None,
        }
    }

    /// The flag in the column `field` of `row`.
    pub fn get_bool(&self, row: &Vec<String>, field: &str) -> (r: Option<bool>)
        ensures
            r == self@.flag_cell(texts(row@), field@),
    {
        match self.get_str(row, field) {
            Some(text) => read_flag(text.as_str()),
            None => None,
        }
    }

    /// The measurement in the column `field` of `row`, in thousandths.
    pub fn get_milli(&self, row: &Vec<String>, field: &str) -> (r: Option<i64>)
        ensures
            r == self@.milli_cell(texts(row@), field@),
    {
        match self.get_str(row, field) {
            Some(text) => parse_decimal(&chars_of(text.as_str()), MILLI_SCALE),
            None => None,
        }
    }

    /// The coordinate in the column `field` of `row`, in units of 1e-7
    /// degree.
    pub fn get_coordinate(&self, row: &Vec<String>, field: &str) -> (r: Option<i64>)
        ensures
            r == self@.coordinate_cell(texts(row@), field@),
    {
        match self.get_str(row, field) {
            Some(text) => parse_decimal(&chars_of(text.as_str()), COORD_SCALE),
            None => None,
        }
    }
}

// ---------------------------------------------------------------------------
// Lines with quoted fields
// ---------------------------------------------------------------------------

/// Where the reader of a line with quoted fields stands.
pub struct QuoteScan {
    /// The fields that are complete.
    pub fields: Seq<Seq<char>>,
    /// The field that is being read.
    pub current: Seq<char>,
    /// True inside quotes.
    pub in_quotes: bool,
}

/// Reads a line from index `i` on. A quote opens or closes a quoted
/// stretch; two quotes in a row inside one stand for a quote. A comma
/// outside quotes ends a field. Each field is stripped of the white space
/// around it.
pub open spec fn quote_scan(line: Seq<char>, i: int, state: QuoteScan) -> Seq<Seq<char>>
    decreases line.len() - i,
{
    if i < 0 || i >= line.len() {
        state.fields.push(trimmed(state.current))
    } else if line[i] == '"' {
        if state.in_quotes {
            if i + 1 < line.len() && line[i + 1] == '"' {
                quote_scan(
                    line,
                    i + 2,
                    QuoteScan { current: state.current.push('"'), ..state },
                )
            } else {
                quote_scan(line, i + 1, QuoteScan { in_quotes: false, ..state })
            }
        } else {
            quote_scan(line, i + 1, QuoteScan { in_quotes: true, ..state })
        }
    } else if line[i] == ',' && !state.in_quotes {
        quote_scan(
            line,
            i + 1,
            QuoteScan {
                fields: state.fields.push(trimmed(state.current)),
                current: Seq::empty(),
                in_quotes: state.in_quotes,
            },
        )
    } else {
        quote_scan(line, i + 1, QuoteScan { current: state.current.push(line[i]), ..state })
    }
}

/// The fields of a line with quoted fields.
pub open spec fn quoted_fields(line: Seq<char>) -> Seq<Seq<char>> {
    quote_scan(
        line,
        0,
        QuoteScan { fields: Seq::empty(), current: Seq::empty(), in_quotes: false },
    )
}

/// Cuts a line into its fields, minding quotes.
pub fn parse_csv_line(line: &str) -> (fields: Vec<String>)
    ensures
        texts(fields@) == quoted_fields(line@),
{
    let chars = chars_of(line);
    let mut fields: Vec<String> = Vec::new();
    let mut current: Vec<char> = Vec::new();
    let mut in_quotes = false;
    let mut i: usize = 0;
    assert(texts(fields@) =~= Seq::<Seq<char>>::empty());
    while i < chars.len()
        invariant
            i <= chars.len(),
            chars@ == line@,
            quoted_fields(line@) == quote_scan(
                line@,
                i as int,
                QuoteScan { fields: texts(fields@), current: current@, in_quotes },
            ),
        decreases chars.len() - i,
    {
        let c = chars[i];
        if c == '"' {
            if in_quotes {
                if i + 1 < chars.len() && chars[i + 1] == '"' {
                    current.push('"');
                    i += 2;
                } else {
                    in_quotes = false;
                    i += 1;
                }
            } else {
                in_quotes = true;
                i += 1;
            }
        } else if c == ',' && !in_quotes {
            let field = string_of(&trim(&current));
            proof {
                lemma_texts_push(fields@, field);
            }
            fields.push(field);
            current = Vec::new();
            i += 1;
        } else {
            current.push(c);
            i += 1;
        }
    }
    let field = string_of(&trim(&current));
    proof {
        lemma_texts_push(fields@, field);
    }
    fields.push(field);
    fields
}

/// True when a lower-case header line names the columns that mark a file
/// of this logbook.
pub open spec fn is_dronelogbook_header(lowered: Seq<char>) -> bool {
    &&& contains_text(lowered, "time_s"@)
    &&& contains_text(lowered, "lat"@)
    &&& contains_text(lowered, "lng"@)
    &&& contains_text(lowered, "alt_m"@)
    &&& (contains_text(lowered, "distance_to_home_m"@) || contains_text(lowered, "height_m"@))
    &&& (contains_text(lowered, "vps_height_m"@) || contains_text(lowered, "rc_aileron"@)
        || contains_text(lowered, "metadata"@))
}

/// Says whether a lower-case header line names the columns that mark a
/// file of this logbook.
pub fn check_dronelogbook_header(lowered: &str) -> (r: bool)
    ensures
        r == is_dronelogbook_header(lowered@),
{
    let line = chars_of(lowered);
    contains(&line, &chars_of("time_s")) && contains(&line, &chars_of("lat")) && contains(
        &line,
        &chars_of("lng"),
    ) && contains(&line, &chars_of("alt_m")) && (contains(&line, &chars_of("distance_to_home_m"))
        || contains(&line, &chars_of("height_m"))) && (contains(
        &line,
        &chars_of("vps_height_m"),
    ) || contains(&line, &chars_of("rc_aileron")) || contains(&line, &chars_of("metadata")))
}

// ---------------------------------------------------------------------------
// The metadata that a file brings along
// ---------------------------------------------------------------------------

/// A tag that a file brings along.
pub struct TagEntry {
    pub name: Seq<char>,
    /// True for a tag that a user gave.
    pub manual: bool,
}

/// What the JSON object in the column `metadata` states.
pub struct ExportMetadataView {
    /// The members that are texts, numbers or truth values, each with its
    /// key in lower case and its value written out; the member `tags` is
    /// not among them.
    pub entries: Seq<(Seq<char>, Seq<char>)>,
    /// The automatic tags.
    pub auto_tags: Seq<Seq<char>>,
    /// The manual tags.
    pub manual_tags: Seq<Seq<char>>,
}

/// What the JSON object in the column `metadata` states.
#[derive(Debug, Clone, PartialEq, Eq)]
pub struct ExportMetadata {
    pub entries: Vec<(String, String)>,
    pub auto_tags: Vec<String>,
    pub manual_tags: Vec<String>,
}

/// The texts of pairs of strings.
pub open spec fn pair_texts(pairs: Seq<(String, String)>) -> Seq<(Seq<char>, Seq<char>)> {
    Seq::new(pairs.len(), |i: int| (pairs[i].0@, pairs[i].1@))
}

impl View for ExportMetadata {
    type V = ExportMetadataView;

    open spec fn view(&self) -> ExportMetadataView {
        ExportMetadataView {
            entries: pair_texts(self.entries@),
            auto_tags: texts(self.auto_tags@),
            manual_tags: texts(self.manual_tags@),
        }
    }
}

/// A value written out, where it is a text, a number or a truth value.
pub open spec fn scalar_text(value: Option<JsonView>) -> Option<Seq<char>> {
    match value {
        Some(JsonView::Text(t)) => Some(t),
        Some(JsonView::Number(n)) => Some(n),
        Some(JsonView::Bool(b)) => Some(
            if b {
                "true"@
            } else {
                "false"@
            },
        ),
        _ => None,
    }
}

/// A value, where it is a text.
pub open spec fn string_value(value: Option<JsonView>) -> Option<Seq<char>> {
    match value {
        Some(JsonView::Text(t)) => Some(t),
        _ => None,
    }
}

/// The value of the last of the first `n` members with the key `key`.
pub open spec fn member_value(members: Seq<(Seq<char>, Seq<char>)>, key: Seq<char>, n: int) -> Option<
    Seq<char>,
>
    decreases n,
{
    if n <= 0 {
        None
    } else if members[n - 1].0 == key {
        Some(members[n - 1].1)
    } else {
        member_value(members, key, n - 1)
    }
}

/// The text of the member `key` of an object, where the member is there
/// and is a text.
pub open spec fn string_member(members: Seq<(Seq<char>, Seq<char>)>, key: Seq<char>) -> Option<
    Seq<char>,
> {
    match member_value(members, key, members.len() as int) {
        Some(value) => string_value(json_of(value)),
        None => None,
    }
}

/// The tag that an element of the array `tags` states: an object with a
/// name under `tag` that is not empty; it is manual where its `tag_type`
/// is `manual`, automatic otherwise.
pub open spec fn tag_of_element(element: Seq<char>) -> Option<TagEntry> {
    match json_of(element) {
        Some(JsonView::Object(members)) => {
            let name = string_member(members, "tag"@);
            let kind = string_member(members, "tag_type"@);
            if name is Some && name->0.len() > 0 {
                Some(TagEntry { name: name->0, manual: kind == Some("manual"@) })
            } else {
                None
            }
        },
        _ => None,
    }
}

/// The names of the tags that the first `n` elements state and that are
/// manual, or automatic.
pub open spec fn tags_upto(elements: Seq<Seq<char>>, manual: bool, n: int) -> Seq<Seq<char>>
    decreases n,
{
    if n <= 0 {
        Seq::empty()
    } else {
        let before = tags_upto(elements, manual, n - 1);
        match tag_of_element(elements[n - 1]) {
            Some(tag) => if tag.manual == manual {
                before.push(tag.name)
            } else {
                before
            },
            None => before,
        }
    }
}

/// What the first `n` members of the object state.
pub open spec fn metadata_upto(members: Seq<(Seq<char>, Seq<char>)>, n: int) -> ExportMetadataView
    decreases n,
{
    if n <= 0 {
        ExportMetadataView {
            entries: Seq::empty(),
            auto_tags: Seq::empty(),
            manual_tags: Seq::empty(),
        }
    } else {
        let before = metadata_upto(members, n - 1);
        let key = members[n - 1].0;
        let value = json_of(members[n - 1].1);
        if key == "tags"@ {
            match value {
                Some(JsonView::Array(elements)) => ExportMetadataView {
                    entries: before.entries,
                    auto_tags: before.auto_tags + tags_upto(elements, false, elements.len() as int),
                    manual_tags: before.manual_tags + tags_upto(
                        elements,
                        true,
                        elements.len() as int,
                    ),
                },
                _ => before,
            }
        } else {
            match scalar_text(value) {
                Some(text) => ExportMetadataView {
                    entries: before.entries.push((lowercase_of(key), text)),
                    ..before
                },
                None => before,
            }
        }
    }
}

/// What the text of the column `metadata` states: what its members state
/// where it is a JSON object, nothing otherwise.
pub open spec fn metadata_of(cell: Seq<char>) -> ExportMetadataView {
    match json_of(cell) {
        Some(JsonView::Object(members)) => metadata_upto(members, members.len() as int),
        _ => metadata_upto(Seq::empty(), 0),
    }
}

/// The value of the last of the first `n` entries with the key `key`.
pub open spec fn entry(entries: Seq<(Seq<char>, Seq<char>)>, key: Seq<char>, n: int) -> Option<
    Seq<char>,
>
    decreases n,
{
    if n <= 0 {
        None
    } else if entries[n - 1].0 == key {
        Some(entries[n - 1].1)
    } else {
        entry(entries, key, n - 1)
    }
}

impl ExportMetadataView {
    /// What the metadata state under `key`.
    pub open spec fn get(&self, key: Seq<char>) -> Option<Seq<char>> {
        entry(self.entries, key, self.entries.len() as int)
    }
}

/// Finds the value of the last pair with the key `key`.
pub fn find_pair(pairs: &Vec<(String, String)>, key: &str) -> (r: Option<String>)
    ensures
        text_of(r) == entry(pair_texts(pairs@), key@, pairs@.len() as int),
{
    let mut i: usize = pairs.len();
    while i > 0
        invariant
            i <= pairs.len(),
            entry(pair_texts(pairs@), key@, pairs@.len() as int) == entry(
                pair_texts(pairs@),
                key@,
                i as int,
            ),
        decreases i,
    {
        assert(pair_texts(pairs@)[i - 1] == (pairs@[i - 1].0@, pairs@[i - 1].1@));
        if is_text(pairs[i - 1].0.as_str(), key) {
            return Some(pairs[i - 1].1.clone());
        }
        i -= 1;
    }
    None
}

/// The text of the member `key` of an object, where it is a text.
fn read_string_member(members: &Vec<(String, String)>, key: &str) -> (r: Option<String>)
    ensures
        text_of(r) == string_member(pair_texts(members@), key@),
{
    let mut i: usize = members.len();
    while i > 0
        invariant
            i <= members.len(),
            member_value(pair_texts(members@), key@, members@.len() as int) == member_value(
                pair_texts(members@),
                key@,
                i as int,
            ),
        decreases i,
    {
        assert(pair_texts(members@)[i - 1] == (members@[i - 1].0@, members@[i - 1].1@));
        if is_text(members[i - 1].0.as_str(), key) {
            return match parse_json(members[i - 1].1.as_str()) {
                Some(Json::Text(t)) => Some(t),
                _ => None,
            };
        }
        i -= 1;
    }
    None
}

/// Reads the tags that the elements of the array `tags` state.
fn read_tags(elements: &Vec<String>, auto_tags: &mut Vec<String>, manual_tags: &mut Vec<String>)
    ensures
        texts(final(auto_tags)@) == texts(old(auto_tags)@) + tags_upto(
            texts(elements@),
            false,
            elements@.len() as int,
        ),
        texts(final(manual_tags)@) == texts(old(manual_tags)@) + tags_upto(
            texts(elements@),
            true,
            elements@.len() as int,
        ),
{
    let mut i: usize = 0;
    assert(texts(auto_tags@) =~= texts(old(auto_tags)@) + tags_upto(texts(elements@), false, 0));
    assert(texts(manual_tags@) =~= texts(old(manual_tags)@) + tags_upto(texts(elements@), true, 0));
    while i < elements.len()
        invariant
            i <= elements.len(),
            texts(auto_tags@) == texts(old(auto_tags)@) + tags_upto(
                texts(elements@),
                false,
                i as int,
            ),
            texts(manual_tags@) == texts(old(manual_tags)@) + tags_upto(
                texts(elements@),
                true,
                i as int,
            ),
        decreases elements.len() - i,
    {
        assert(texts(elements@)[i as int] == elements@[i as int]@);
        let ghost autos = texts(auto_tags@);
        let ghost manuals = texts(manual_tags@);
        let ghost before_auto = tags_upto(texts(elements@), false, i as int);
        let ghost before_manual = tags_upto(texts(elements@), true, i as int);
        match parse_json(elements[i].as_str()) {
            Some(Json::Object(members)) => {
                let name = read_string_member(&members, "tag");
                let kind = read_string_member(&members, "tag_type");
                assert(pair_texts(members@) == json_of(elements@[i as int]@)->0->Object_0);
                match name {
                    Some(n) => {
                        if !n.as_str().is_empty() {
                            let manual = match kind {
                                Some(k) => is_text(k.as_str(), "manual"),
                                None => false,
                            };
                            proof {
                                lemma_texts_push(auto_tags@, n);
                                lemma_texts_push(manual_tags@, n);
                            }
                            if manual {
                                manual_tags.push(n);
                                assert(texts(manual_tags@) =~= texts(old(manual_tags)@)
                                    + before_manual.push(n@));
                            } else {
                                auto_tags.push(n);
                                assert(texts(auto_tags@) =~= texts(old(auto_tags)@)
                                    + before_auto.push(n@));
                            }
                        }
                    },
                    None => {},
                }
            },
            _ => {},
        }
        i += 1;
    }
}

/// Reads what the text of the column `metadata` states; see
/// [`metadata_of`].
pub fn read_export_metadata(cell: &str) -> (r: ExportMetadata)
    ensures
        r@ == metadata_of(cell@),
{
    let mut entries: Vec<(String, String)> = Vec::new();
    let mut auto_tags: Vec<String> = Vec::new();
    let mut manual_tags: Vec<String> = Vec::new();
    assert(pair_texts(entries@) =~= Seq::empty());
    assert(texts(auto_tags@) =~= Seq::empty());
    assert(texts(manual_tags@) =~= Seq::empty());
    match parse_json(cell) {
        Some(Json::Object(members)) => {
            let ghost all = pair_texts(members@);
            let mut i: usize = 0;
            while i < members.len()
                invariant
                    i <= members.len(),
                    all == pair_texts(members@),
                    pair_texts(entries@) == metadata_upto(all, i as int).entries,
                    texts(auto_tags@) == metadata_upto(all, i as int).auto_tags,
                    texts(manual_tags@) == metadata_upto(all, i as int).manual_tags,
                decreases members.len() - i,
            {
                assert(all[i as int] == (members@[i as int].0@, members@[i as int].1@));
                let key = members[i].0.as_str();
                let value = parse_json(members[i].1.as_str());
                if is_text(key, "tags") {
                    match value {
                        Some(Json::Array(elements)) => {
                            assert(texts(elements@) =~= json_of(members@[i as int].1@)->0->Array_0);
                            read_tags(&elements, &mut auto_tags, &mut manual_tags);
                        },
                        _ => {},
                    }
                } else {
                    let text = match value {
                        Some(Json::Text(t)) => Some(t),
                        Some(Json::Number(n)) => Some(n),
                        Some(Json::Bool(b)) => Some(
                            if b {
                                "true".to_owned()
                            } else {
                                "false".to_owned()
                            },
                        ),
                        _ => None,
                    };
                    match text {
                        Some(t) => {
                            let lowered = to_lowercase(key);
                            proof {
                                assert(pair_texts(entries@.push((lowered, t))) =~= pair_texts(
                                    entries@,
                                ).push((lowered@, t@)));
                            }
                            entries.push((lowered, t));
                        },
                        None => {},
                    }
                }
                i += 1;
            }
        },
        _ => {},
    }
    ExportMetadata { entries, auto_tags, manual_tags }
}

// ---------------------------------------------------------------------------
// Rows
// ---------------------------------------------------------------------------

/// The point that a row gives.
#[verifier::opaque]
pub open spec fn export_point(columns: Columns, row: Seq<Seq<char>>) -> TelemetryPointView {
    TelemetryPointView {
        timestamp_ms: value_or_zero(columns.milli_cell(row, "time_s"@)),
        latitude: columns.coordinate_cell(row, "lat"@),
        longitude: columns.coordinate_cell(row, "lng"@),
        altitude: columns.milli_cell(row, "alt_m"@),
        height: columns.milli_cell(row, "height_m"@),
        vps_height: columns.milli_cell(row, "vps_height_m"@),
        altitude_abs: columns.milli_cell(row, "altitude_m"@),
        speed: columns.milli_cell(row, "speed_ms"@),
        velocity_x: columns.milli_cell(row, "velocity_x_ms"@),
        velocity_y: columns.milli_cell(row, "velocity_y_ms"@),
        velocity_z: columns.milli_cell(row, "velocity_z_ms"@),
        pitch: columns.milli_cell(row, "pitch_deg"@),
        roll: columns.milli_cell(row, "roll_deg"@),
        yaw: columns.milli_cell(row, "yaw_deg"@),
        gimbal_pitch: None,
        gimbal_roll: None,
        gimbal_yaw: None,
        battery_percent: columns.int_cell(row, "battery_percent"@),
        battery_voltage: columns.milli_cell(row, "battery_voltage_v"@),
        battery_current: None,
        battery_temp: columns.milli_cell(row, "battery_temp_c"@),
        cell_voltages: None,
        flight_mode: columns.cell(row, "flight_mode"@),
        gps_signal: None,
        satellites: columns.int_cell(row, "satellites"@),
        rc_signal: columns.int_cell(row, "rc_signal"@),
        rc_uplink: columns.int_cell(row, "rc_uplink"@),
        rc_downlink: columns.int_cell(row, "rc_downlink"@),
        rc_aileron: columns.milli_cell(row, "rc_aileron"@),
        rc_elevator: columns.milli_cell(row, "rc_elevator"@),
        rc_throttle: columns.milli_cell(row, "rc_throttle"@),
        rc_rudder: columns.milli_cell(row, "rc_rudder"@),
        is_photo: columns.flag_cell(row, "is_photo"@),
        is_video: columns.flag_cell(row, "is_video"@),
    }
}

/// The points of the first `n` rows, each put through the filters that
/// every source goes through: one for each row that has a position
/// afterwards.
pub open spec fn positioned_upto(columns: Columns, rows: Seq<Seq<Seq<char>>>, n: int) -> Seq<
    TelemetryPointView,
>
    decreases n,
{
    if n <= 0 {
        Seq::empty()
    } else {
        let before = positioned_upto(columns, rows, n - 1);
        let p = sane_point(export_point(columns, rows[n - 1]));
        if p.latitude is Some && p.longitude is Some {
            before.push(p)
        } else {
            before
        }
    }
}

/// The points of the rows, in the order of the rows.
pub open spec fn export_points(columns: Columns, rows: Seq<Seq<Seq<char>>>) -> Seq<
    TelemetryPointView,
> {
    positioned_upto(columns, rows, rows.len() as int)
}

/// Rows give no more points than there are rows.
pub proof fn lemma_positioned_upto_len(columns: Columns, rows: Seq<Seq<Seq<char>>>, n: int)
    ensures
        positioned_upto(columns, rows, n).len() <= if n <= 0 { 0 } else { n },
    decreases n,
{
    if n > 0 {
        lemma_positioned_upto_len(columns, rows, n - 1);
    }
}

/// A row without a latitude or a longitude that can be read gives no
/// point.
pub proof fn lemma_row_without_position_gives_no_point(columns: Columns, row: Seq<Seq<char>>)
    requires
        columns.coordinate_cell(row, "lat"@) is None || columns.coordinate_cell(
            row,
            "lng"@,
        ) is None,
    ensures
        !(sane_point(export_point(columns, row)).latitude is Some && sane_point(
            export_point(columns, row),
        ).longitude is Some),
{
    reveal(export_point);
}

/// A cell that begins with what begins no number, `NaN` or `inf` among
/// it, holds no coordinate.
pub proof fn lemma_no_number_is_no_coordinate(
    columns: Columns,
    row: Seq<Seq<char>>,
    field: Seq<char>,
)
    requires
        columns.cell(row, field) matches Some(text) ==> begins_no_number(text),
    ensures
        columns.coordinate_cell(row, field) is None,
{
    match columns.cell(row, field) {
        Some(text) => {
            lemma_no_number(text, COORD_SCALE as nat);
        },
        None => {},
    }
}

/// Taking a row without a position out of the rows leaves the points of
/// the first `n` rows as they are.
proof fn lemma_positioned_without_row(
    columns: Columns,
    rows: Seq<Seq<Seq<char>>>,
    k: int,
    n: int,
)
    requires
        0 <= k < rows.len(),
        0 <= n <= rows.len(),
        !(sane_point(export_point(columns, rows[k])).latitude is Some && sane_point(
            export_point(columns, rows[k]),
        ).longitude is Some),
    ensures
        n <= k ==> positioned_upto(columns, rows.remove(k), n) == positioned_upto(columns, rows, n),
        n > k ==> positioned_upto(columns, rows.remove(k), n - 1) == positioned_upto(
            columns,
            rows,
            n,
        ),
    decreases n,
{
    if n > 0 {
        lemma_positioned_without_row(columns, rows, k, n - 1);
        if n <= k {
            assert(rows.remove(k)[n - 1] == rows[n - 1]);
        } else if n - 1 > k {
            assert(rows.remove(k)[n - 2] == rows[n - 1]);
        }
    }
}

/// A row whose latitude or longitude cannot be read is dropped, it alone:
/// the points of the file are those of the other rows, point for point and in the
/// same order.
pub proof fn lemma_row_without_position_is_dropped(
    columns: Columns,
    rows: Seq<Seq<Seq<char>>>,
    k: int,
)
    requires
        0 <= k < rows.len(),
        columns.coordinate_cell(rows[k], "lat"@) is None || columns.coordinate_cell(
            rows[k],
            "lng"@,
        ) is None,
    ensures
        export_points(columns, rows.remove(k)) == export_points(columns, rows),
{
    lemma_row_without_position_gives_no_point(columns, rows[k]);
    lemma_positioned_without_row(columns, rows, k, rows.len() as int);
}

/// The measurement of one column in every row.
pub open spec fn milli_column(columns: Columns, rows: Seq<Seq<Seq<char>>>, field: Seq<char>) -> Seq<
    Option<i64>,
> {
    Seq::new(rows.len(), |i: int| columns.milli_cell(rows[i], field))
}

/// Reads one row as a point.
pub fn parse_row(columns: &ColumnMap, row: &Vec<String>) -> (p: TelemetryPoint)
    ensures
        p@ == export_point(columns@, texts(row@)),
{
    reveal(export_point);
    TelemetryPoint {
            timestamp_ms: match columns.get_milli(row, "time_s") {
                Some(t) => t,
                None => 0,
            },
            latitude: columns.get_coordinate(row, "lat"),
            longitude: columns.get_coordinate(row, "lng"),
            altitude: columns.get_milli(row, "alt_m"),
            height: columns.get_milli(row, "height_m"),
            vps_height: columns.get_milli(row, "vps_height_m"),
            altitude_abs: columns.get_milli(row, "altitude_m"),
            speed: columns.get_milli(row, "speed_ms"),
            velocity_x: columns.get_milli(row, "velocity_x_ms"),
            velocity_y: columns.get_milli(row, "velocity_y_ms"),
            velocity_z: columns.get_milli(row, "velocity_z_ms"),
            pitch: columns.get_milli(row, "pitch_deg"),
            roll: columns.get_milli(row, "roll_deg"),
            yaw: columns.get_milli(row, "yaw_deg"),
            gimbal_pitch: None,
            gimbal_roll: None,
            gimbal_yaw: None,
            battery_percent: columns.get_i32(row, "battery_percent"),
            battery_voltage: columns.get_milli(row, "battery_voltage_v"),
            battery_current: None,
            battery_temp: columns.get_milli(row, "battery_temp_c"),
            cell_voltages: None,
            flight_mode: columns.get_str(row, "flight_mode"),
            gps_signal: None,
            satellites: columns.get_i32(row, "satellites"),
            rc_signal: columns.get_i32(row, "rc_signal"),
            rc_uplink: columns.get_i32(row, "rc_uplink"),
            rc_downlink: columns.get_i32(row, "rc_downlink"),
            rc_aileron: columns.get_milli(row, "rc_aileron"),
            rc_elevator: columns.get_milli(row, "rc_elevator"),
            rc_throttle: columns.get_milli(row, "rc_throttle"),
            rc_rudder: columns.get_milli(row, "rc_rudder"),
            is_photo: columns.get_bool(row, "is_photo"),
            is_video: columns.get_bool(row, "is_video"),
    }
}

/// Reads the rows as points, in the order of the rows, and leaves out the
/// rows without a position.
pub fn read_points(columns: &ColumnMap, rows: &Vec<Vec<String>>) -> (points: Vec<TelemetryPoint>)
    ensures
        point_views(points@) == export_points(columns@, row_texts(rows@)),
{
    let mut points: Vec<TelemetryPoint> = Vec::new();
    let mut i: usize = 0;
    assert(point_views(points@) =~= positioned_upto(columns@, row_texts(rows@), 0));
    while i < rows.len()
        invariant
            i <= rows.len(),
            point_views(points@) == positioned_upto(columns@, row_texts(rows@), i as int),
        decreases rows.len() - i,
    {
        let p = sanitize_point(parse_row(columns, &rows[i]));
        assert(row_texts(rows@)[i as int] == texts(rows@[i as int]@));
        if p.latitude.is_some() && p.longitude.is_some() {
            proof {
                assert(point_views(points@.push(p)) =~= point_views(points@).push(p@));
            }
            points.push(p);
        }
        i += 1;
    }
    points
}

/// Reads the measurement of one column in every row.
pub fn read_milli_column(columns: &ColumnMap, rows: &Vec<Vec<String>>, field: &str) -> (column: Vec<
    Option<i64>,
>)
    ensures
        column@ == milli_column(columns@, row_texts(rows@), field@),
{
    let mut column: Vec<Option<i64>> = Vec::new();
    let mut i: usize = 0;
    while i < rows.len()
        invariant
            i <= rows.len(),
            column@ =~= Seq::new(
                i as nat,
                |k: int| columns@.milli_cell(row_texts(rows@)[k], field@),
            ),
        decreases rows.len() - i,
    {
        assert(row_texts(rows@)[i as int] == texts(rows@[i as int]@));
        column.push(columns.get_milli(&rows[i], field));
        i += 1;
    }
    column
}

// ---------------------------------------------------------------------------
// The parser
// ---------------------------------------------------------------------------

/// The first index from `from` on at which `names` holds `field`.
pub open spec fn first_index_of_name(names: Seq<Seq<char>>, field: Seq<char>, from: int) -> Option<
    int,
>
    decreases names.len() - from,
{
    if from < 0 || from >= names.len() {
        None
    } else if names[from] == field {
        Some(from)
    } else {
        first_index_of_name(names, field, from + 1)
    }
}

/// The metadata that stand for "none stated".
pub open spec fn no_metadata() -> ExportMetadataView {
    ExportMetadataView { entries: Seq::empty(), auto_tags: Seq::empty(), manual_tags: Seq::empty() }
}

/// How a file of this logbook is laid out.
pub struct ExportLayout {
    /// The index of the header line: the first line that is not blank.
    pub header: int,
    /// The index of the first line behind the header that is not blank.
    pub first: int,
    pub columns: Columns,
    /// The number of columns.
    pub width: int,
    /// The rows of data.
    pub rows: Seq<Seq<Seq<char>>>,
    /// What the column `metadata` states in the first row.
    pub meta: ExportMetadataView,
}

/// What the column `metadata` states in the line `first`, read with quotes
/// minded.
pub open spec fn stated_metadata(lines: Seq<Seq<char>>, columns: Columns, first: int) -> ExportMetadataView {
    match first_index_of_name(columns.names, "metadata"@, 0) {
        Some(index) => if first < lines.len() {
            let fields = quoted_fields(lines[first]);
            if index < fields.len() && fields[index].len() > 0 {
                metadata_of(fields[index])
            } else {
                no_metadata()
            }
        } else {
            no_metadata()
        },
        None => no_metadata(),
    }
}

/// The layout of a file with a header.
pub open spec fn layout_of(lines: Seq<Seq<char>>) -> ExportLayout {
    let header = first_filled(lines, 0);
    let headers = header_fields(lines[header]);
    let columns = columns_of(headers);
    let first = first_filled(lines, header + 1);
    ExportLayout {
        header,
        first,
        columns,
        width: headers.len() as int,
        rows: data_rows(lines, first, headers.len() as int),
        meta: stated_metadata(lines, columns, first),
    }
}

/// The number that a text writes, in thousandths.
pub open spec fn milli_of_text(text: Option<Seq<char>>) -> Option<i64> {
    match text {
        Some(t) => in_i64(decimal_literal(t, MILLI_SCALE as nat)),
        None => None,
    }
}

/// The coordinate that a text writes, in units of 1e-7 degree.
pub open spec fn coordinate_of_text(text: Option<Seq<char>>) -> Option<i64> {
    match text {
        Some(t) => in_i64(decimal_literal(t, COORD_SCALE as nat)),
        None => None,
    }
}

/// The serial number that a text writes, as the logbook keeps serial numbers.
pub open spec fn serial_of_text(text: Option<Seq<char>>) -> Option<Seq<char>> {
    match text {
        Some(t) => normalized_serial(t),
        None => None,
    }
}

/// The duration of the flight: from the first time that a row states to
/// the last, where the last is later; else what the metadata state.
pub open spec fn export_duration(times: Seq<Option<i64>>, meta: ExportMetadataView) -> Option<i64> {
    let first = first_present(times);
    let last = last_present(times);
    if first is Some && last is Some && last->0 > first->0 {
        Some(clamp_i64(last->0 - first->0))
    } else {
        milli_of_text(meta.get("duration_secs"@))
    }
}

/// The instant at which the flight began: what the metadata state, else
/// what the name of the file states.
pub open spec fn export_start(meta: ExportMetadataView, file_name: Seq<char>) -> Option<i64> {
    match meta.get("start_time"@) {
        Some(t) => match flexible_instant(t) {
            Some(x) => Some(x),
            None => instant_in_file_name(file_name),
        },
        None => instant_in_file_name(file_name),
    }
}

/// The instant at which the flight ended: its start and the whole seconds
/// of its duration.
pub open spec fn export_end(start: Option<i64>, duration: Option<i64>) -> Option<i64> {
    match start {
        Some(s) => Some(
            clamp_i64(
                s + crate::downsample::mean_toward_zero(value_or_zero(duration) as int, 1000)
                    * 1_000_000,
            ),
        ),
        None => None,
    }
}

/// The latitude of the home position: what the metadata state, else that
/// of the first row with a position.
pub open spec fn export_home_lat(meta: ExportMetadataView, raw: Seq<TelemetryPointView>) -> Option<
    i64,
> {
    let stated = coordinate_of_text(meta.get("home_lat"@));
    if stated is None && raw.len() > 0 {
        raw[0].latitude
    } else {
        stated
    }
}

/// The longitude of the home position: that of the first row with a
/// position where the metadata state no latitude, else what the metadata
/// state.
pub open spec fn export_home_lon(meta: ExportMetadataView, raw: Seq<TelemetryPointView>) -> Option<
    i64,
> {
    if coordinate_of_text(meta.get("home_lat"@)) is None && raw.len() > 0 {
        raw[0].longitude
    } else {
        coordinate_of_text(meta.get("home_lon"@))
    }
}

/// The name that is stated, or else the fallback.
pub open spec fn name_or(stated: Option<Seq<char>>, fallback: Seq<char>) -> Seq<char> {
    match stated {
        Some(name) => name,
        None => fallback,
    }
}

/// The metadata that the draft of a re-imported flight states.
pub open spec fn export_metadata(
    file_name: Seq<char>,
    file_stem: Seq<char>,
    file_hash: Seq<char>,
    layout: ExportLayout,
    raw: Seq<TelemetryPointView>,
    points: Seq<TelemetryPoint>,
) -> FlightMetadataView {
    let meta = layout.meta;
    let duration = export_duration(milli_column(layout.columns, layout.rows, "time_s"@), meta);
    let start = export_start(meta, file_name);
    FlightMetadataView {
        id: 0,
        file_name,
        display_name: name_or(meta.get("display_name"@), display_name_of(file_name, file_stem)),
        file_hash: Some(file_hash),
        drone_model: meta.get("drone_model"@),
        drone_serial: serial_of_text(meta.get("drone_serial"@)),
        aircraft_name: meta.get("aircraft_name"@),
        battery_serial: serial_of_text(meta.get("battery_serial"@)),
        start_time: start,
        end_time: export_end(start, duration),
        duration_ms: duration,
        total_distance: None,
        max_altitude: Some(
            positive_or_zero(max_present(milli_column(layout.columns, layout.rows, "alt_m"@))),
        ),
        max_speed: Some(
            positive_or_zero(max_present(milli_column(layout.columns, layout.rows, "speed_ms"@))),
        ),
        home_lat: export_home_lat(meta, raw),
        home_lon: export_home_lon(meta, raw),
        point_count: point_count_of(points.len()),
        photo_count: shot_count(points, Camera::Photo),
        video_count: shot_count(points, Camera::Video),
    }
}

/// The statistics that the draft of a re-imported flight states.
pub open spec fn export_stats(
    layout: ExportLayout,
    raw: Seq<TelemetryPointView>,
    points: Seq<TelemetryPoint>,
) -> FlightStats {
    let meta = layout.meta;
    let lat = export_home_lat(meta, raw);
    let lon = export_home_lon(meta, raw);
    FlightStats {
        duration_ms: value_or_zero(
            export_duration(milli_column(layout.columns, layout.rows, "time_s"@), meta),
        ),
        total_distance: 0,
        max_altitude: positive_or_zero(
            max_present(milli_column(layout.columns, layout.rows, "alt_m"@)),
        ),
        max_speed: positive_or_zero(
            max_present(milli_column(layout.columns, layout.rows, "speed_ms"@)),
        ),
        avg_speed: 0,
        min_battery: value_or_zero(min_present(points_column(points, Quantity::BatteryPercent)))
            as i32,
        home_location: if lat is Some && lon is Some {
            Some((lon->0, lat->0))
        } else {
            None
        },
        max_distance_from_home: 0,
        start_battery_percent: if points.len() > 0 {
            points[0].battery_percent
        } else {
            None
        },
        end_battery_percent: if points.len() > 0 {
            points.last().battery_percent
        } else {
            None
        },
        start_battery_temp: if points.len() > 0 {
            points[0].battery_temp
        } else {
            None
        },
    }
}

/// What a successful parse of a file of this logbook gives.
pub open spec fn is_export_draft(d: Draft, file: SourceFile, file_hash: Seq<char>) -> bool {
    let layout = layout_of(texts(file.lines@));
    let raw = export_points(layout.columns, layout.rows);
    &&& d.format == LogFormat::DroneLogbookCsv
    &&& exists|unsorted: Seq<TelemetryPoint>|
        #[trigger] point_views(unsorted) == raw && d.points@ == stable_sorted(unsorted)
    &&& is_ordered(d.points@)
    &&& d.stats == export_stats(layout, raw, d.points@)
    &&& d.metadata@ == export_metadata(
        file.file_name@,
        file.file_stem@,
        file_hash,
        layout,
        raw,
        d.points@,
    )
    &&& texts(d.imported_tags@) == layout.meta.auto_tags
    &&& texts(d.manual_tags@) == layout.meta.manual_tags
    &&& text_of(d.notes) == layout.meta.get("notes"@)
}

/// What parsing a file of this logbook comes to: an error for a file
/// without a header and for one without a row that has a position, else a
/// draft.
pub open spec fn export_failure(file: SourceFile) -> Option<ParserErrorView> {
    let lines = texts(file.lines@);
    if first_filled(lines, 0) >= lines.len() {
        Some(ParserErrorView::Parse("No header line found in CSV file"@))
    } else {
        let layout = layout_of(lines);
        if export_points(layout.columns, layout.rows).len() == 0 {
            Some(ParserErrorView::NoTelemetryData)
        } else {
            None
        }
    }
}

/// Finds the first of `names` that is `field`.
pub fn find_first_name(names: &Vec<String>, field: &str) -> (r: Option<usize>)
    ensures
        r is Some == first_index_of_name(texts(names@), field@, 0) is Some,
        r matches Some(i) ==> first_index_of_name(texts(names@), field@, 0) == Some(i as int) && i
            < names@.len(),
{
    let mut i: usize = 0;
    while i < names.len()
        invariant
            i <= names.len(),
            first_index_of_name(texts(names@), field@, 0) == first_index_of_name(
                texts(names@),
                field@,
                i as int,
            ),
        decreases names.len() - i,
    {
        assert(texts(names@)[i as int] == names@[i as int]@);
        if is_text(names[i].as_str(), field) {
            return Some(i);
        }
        i += 1;
    }
    None
}

fn no_export_metadata() -> (r: ExportMetadata)
    ensures
        r@ == no_metadata(),
{
    let r = ExportMetadata { entries: Vec::new(), auto_tags: Vec::new(), manual_tags: Vec::new() };
    assert(pair_texts(r.entries@) =~= Seq::empty());
    assert(texts(r.auto_tags@) =~= Seq::empty());
    assert(texts(r.manual_tags@) =~= Seq::empty());
    r
}

/// Reads what the column `metadata` states in the line `first`.
pub fn read_stated_metadata(lines: &Vec<String>, columns: &ColumnMap, first: usize) -> (r:
    ExportMetadata)
    ensures
        r@ == stated_metadata(texts(lines@), columns@, first as int),
{
    match find_first_name(&columns.names, "metadata") {
        Some(index) => if first < lines.len() {
            let fields = parse_csv_line(lines[first].as_str());
            assert(texts(fields@) == quoted_fields(texts(lines@)[first as int]));
            if index < fields.len() && !fields[index].as_str().is_empty() {
                assert(texts(fields@)[index as int] == fields@[index as int]@);
                read_export_metadata(fields[index].as_str())
            } else {
                if index < fields.len() {
                    assert(texts(fields@)[index as int] == fields@[index as int]@);
                }
                no_export_metadata()
            }
        } else {
            no_export_metadata()
        },
        None => no_export_metadata(),
    }
}

fn milli_text(text: &Option<String>) -> (r: Option<i64>)
    ensures
        r == milli_of_text(text_of(*text)),
{
    match text {
        Some(t) => parse_decimal(&chars_of(t.as_str()), MILLI_SCALE),
        None => None,
    }
}

fn coordinate_text(text: &Option<String>) -> (r: Option<i64>)
    ensures
        r == coordinate_of_text(text_of(*text)),
{
    match text {
        Some(t) => parse_decimal(&chars_of(t.as_str()), COORD_SCALE),
        None => None,
    }
}

fn serial_text(text: &Option<String>) -> (r: Option<String>)
    ensures
        text_of(r) == serial_of_text(text_of(*text)),
{
    match text {
        Some(t) => normalize_serial(t.as_str()),
        None => None,
    }
}

fn positive_part(x: Option<i64>) -> (r: i64)
    ensures
        r == positive_or_zero(x),
{
    match x {
        Some(v) => if v > 0 {
            v
        } else {
            0
        },
        None => 0,
    }
}

/// Computes the duration of the flight.
pub fn compute_duration(times: &Vec<Option<i64>>, meta: &ExportMetadata) -> (r: Option<i64>)
    ensures
        r == export_duration(times@, meta@),
{
    let first = first_of(times);
    let last = last_of(times);
    match (first, last) {
        (Some(a), Some(b)) => if b > a {
            let diff: i128 = b as i128 - a as i128;
            return Some(
                if diff > i64::MAX as i128 {
                    i64::MAX
                } else {
                    diff as i64
                },
            );
        },
        _ => {},
    }
    milli_text(&find_pair(&meta.entries, "duration_secs"))
}

/// Computes the instant at which the flight ended.
pub fn compute_end(start: Option<i64>, duration: Option<i64>) -> (r: Option<i64>)
    ensures
        r == export_end(start, duration),
{
    match start {
        Some(s) => {
            let d: i128 = match duration {
                Some(d) => d as i128,
                None => 0,
            };
            let seconds: i128 = if d >= 0 {
                d / 1000
            } else {
                -((-d) / 1000)
            };
            let end: i128 = s as i128 + seconds * 1_000_000;
            Some(
                if end < i64::MIN as i128 {
                    i64::MIN
                } else if end > i64::MAX as i128 {
                    i64::MAX
                } else {
                    end as i64
                },
            )
        },
        None => None,
    }
}

/// The parser of files that this logbook exported.
#[derive(Debug, Clone, Copy, PartialEq, Eq, Structural)]
pub struct DroneLogbookParser {}

impl DroneLogbookParser {
    /// A parser of exported files.
    pub fn new() -> (parser: DroneLogbookParser) {
        DroneLogbookParser {  }
    }

    /// Says whether a file is one that this logbook exported: its
    /// extension is `csv`, whatever the case, and its first line that is
    /// not blank names the columns that mark one.
    pub fn is_dronelogbook_csv(extension: &str, lines: &Vec<String>) -> (r: bool)
        ensures
            r == (same_ignoring_ascii_case(extension@, "csv"@) && first_filled(texts(lines@), 0)
                < lines@.len() && is_dronelogbook_header(
                lowercase_of(trimmed(texts(lines@)[first_filled(texts(lines@), 0)])),
            )),
    {
        if !eq_ignore_ascii_case(&chars_of(extension), &chars_of("csv")) {
            return false;
        }
        let header = find_filled(lines, 0);
        if header >= lines.len() {
            return false;
        }
        assert(texts(lines@)[header as int] == lines@[header as int]@);
        let stripped = string_of(&trim(&chars_of(lines[header].as_str())));
        let lowered = to_lowercase(stripped.as_str());
        check_dronelogbook_header(lowered.as_str())
    }

    /// Parses a file that this logbook exported. The first line that is
    /// not blank is the header; the next one is the first row and holds the
    /// metadata. Every row is put through the filters that every source
    /// goes through, and every row that has a position afterwards gives a
    /// point. The points are in order of time.
    pub fn parse(&self, file: &SourceFile, file_hash: &str) -> (r: Result<Draft, ParserError>)
        ensures
            failure_of(r) == export_failure(*file),
            r matches Ok(d) ==> is_export_draft(d, *file, file_hash@),
    {
        let lines = &file.lines;
        let header = find_filled(lines, 0);
        if header >= lines.len() {
            return Err(ParserError::Parse("No header line found in CSV file".to_owned()));
        }
        assert(texts(lines@)[header as int] == lines@[header as int]@);
        let headers = split_header(lines[header].as_str());
        let columns = ColumnMap::new(&headers);
        let first = find_filled(lines, header + 1);
        let meta = read_stated_metadata(lines, &columns, first);
        let rows = read_rows(lines, first, headers.len());
        let ghost layout = layout_of(texts(lines@));
        assert(layout.columns == columns@);
        assert(layout.rows == row_texts(rows@));
        assert(layout.meta == meta@);
        let raw = read_points(&columns, &rows);
        let ghost raw_views = point_views(raw@);
        let ghost unsorted = raw@;
        let first_lat = if raw.len() > 0 {
            raw[0].latitude
        } else {
            None
        };
        let first_lon = if raw.len() > 0 {
            raw[0].longitude
        } else {
            None
        };
        proof {
            if raw@.len() > 0 {
                assert(raw_views[0] == raw@[0]@);
            }
        }
        let points = order_by_time(raw);
        if points.len() == 0 {
            return Err(ParserError::NoTelemetryData);
        }
        let times = read_milli_column(&columns, &rows, "time_s");
        let altitudes = read_milli_column(&columns, &rows, "alt_m");
        let speeds = read_milli_column(&columns, &rows, "speed_ms");
        let duration = compute_duration(&times, &meta);
        let stated_lat = coordinate_text(&find_pair(&meta.entries, "home_lat"));
        let stated_lon = coordinate_text(&find_pair(&meta.entries, "home_lon"));
        let (home_lat, home_lon) = if stated_lat.is_none() && points.len() > 0 {
            (first_lat, first_lon)
        } else {
            (stated_lat, stated_lon)
        };
        assert(home_lat == export_home_lat(meta@, raw_views));
        assert(home_lon == export_home_lon(meta@, raw_views));
        let start = match find_pair(&meta.entries, "start_time") {
            Some(t) => match parse_timestamp_flexible(t.as_str()) {
                Some(x) => Some(x),
                None => extract_datetime_from_filename(file.file_name.as_str()),
            },
            None => extract_datetime_from_filename(file.file_name.as_str()),
        };
        let max_altitude = positive_part(largest(&altitudes));
        let max_speed = positive_part(largest(&speeds));
        let charge = column_of_points(&points, Quantity::BatteryPercent);
        let lowest = smallest(&charge);
        proof {
            assert forall|x: Option<i64>| charge@.contains(x) && x is Some implies i32::MIN
                <= x->0 <= i32::MAX by {
                let k = choose|k: int| 0 <= k < charge@.len() && charge@[k] == x;
                assert(charge@[k] == widen(points@[k].battery_percent));
            }
        }
        let stats = FlightStats {
            duration_ms: match duration {
                Some(d) => d,
                None => 0,
            },
            total_distance: 0,
            max_altitude,
            max_speed,
            avg_speed: 0,
            min_battery: match lowest {
                Some(low) => low as i32,
                None => 0,
            },
            home_location: match (home_lat, home_lon) {
                (Some(lat), Some(lon)) => Some((lon, lat)),
                _ => None,
            },
            max_distance_from_home: 0,
            start_battery_percent: points[0].battery_percent,
            end_battery_percent: points[points.len() - 1].battery_percent,
            start_battery_temp: points[0].battery_temp,
        };
        let metadata = FlightMetadata {
            id: 0,
            file_name: file.file_name.clone(),
            display_name: match find_pair(&meta.entries, "display_name") {
                Some(name) => name,
                None => display_name(file.file_name.as_str(), file.file_stem.as_str()),
            },
            file_hash: Some(file_hash.to_owned()),
            drone_model: find_pair(&meta.entries, "drone_model"),
            drone_serial: serial_text(&find_pair(&meta.entries, "drone_serial")),
            aircraft_name: find_pair(&meta.entries, "aircraft_name"),
            battery_serial: serial_text(&find_pair(&meta.entries, "battery_serial")),
            start_time: start,
            end_time: compute_end(start, duration),
            duration_ms: duration,
            total_distance: None,
            max_altitude: Some(max_altitude),
            max_speed: Some(max_speed),
            home_lat,
            home_lon,
            point_count: count_points(points.len()),
            photo_count: count_shots(&points, Camera::Photo),
            video_count: count_shots(&points, Camera::Video),
        };
        let notes = find_pair(&meta.entries, "notes");
        let draft = Draft {
            format: LogFormat::DroneLogbookCsv,
            metadata,
            stats,
            points,
            imported_tags: meta.auto_tags,
            manual_tags: meta.manual_tags,
            notes,
        };
        proof {
            assert(point_views(unsorted) == export_points(layout.columns, layout.rows));
        }
        Ok(draft)
    }
}

} // verus!
