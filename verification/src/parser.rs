//! The ingestion pipeline: from a log file to a flight ready to be stored.
//!
//! A file is first classified by its extension and its header. A CSV file
//! is parsed here. A binary log is decoded outside, under a time limit and
//! shielded from crashes, and its frames are validated here. Either way
//! the outcome is a draft of the flight. Distances over ground and the
//! country of the home position are measured outside on the draft's points
//! and handed back; with them the draft becomes the result of the parse.

use vstd::prelude::*;
use crate::csv::first_filled;
use crate::dronelogbook_parser::{
    export_failure, is_dronelogbook_header, is_export_draft, DroneLogbookParser,
};
use crate::frames::{
    clamp_i64, count_upto, extract_points, extracted, has_bad_altitude, has_bad_height,
    has_bad_speed, is_corrupt, is_out_of_range, lacks_lock, RawFrame, Validation,
};
use crate::litchi_parser::{is_litchi_draft, is_litchi_header, litchi_failure, LitchiParser};
use crate::text::{eq_ignore_ascii_case, lowercase_of, same_ignoring_ascii_case};
use crate::hashing::{file_hash_of, hash_content};
use crate::models::{
    text_of, FlightMetadata, FlightMetadataView, FlightStats, TelemetryPoint, TelemetryRecord,
};
use crate::tags::{push_new, with_new};
use crate::numbers::{decimal_text, write_decimal};
use crate::ordering::is_ordered;
use crate::stats::{
    count_shots, longest, max_length, shot_count, stats_from_points, stats_from_records,
    stats_of_points, stats_of_records, total_length, total_of, Camera,
};
use crate::tags::{filter, filtered_tags, generate, place_names, place_tags, smart_tags};
use crate::text::{
    chars_of, is_blank, starts_with, starts_with_text, string_of, texts, to_uppercase, trim,
    trimmed, uppercase_of,
};

verus! {

/// Seconds that the decoder of binary logs is given for one file.
pub const PARSE_TIMEOUT_SECS: u64 = 40;

/// The version of the binary format from which on frames are encrypted.
pub const ENCRYPTED_FROM_VERSION: u8 = 13;

/// Why a file gave no flight.
#[derive(Debug, Clone, PartialEq, Eq)]
pub enum ParserError {
    /// The file could not be read.
    Io(String),
    /// The content is not what its format demands.
    Parse(String),
    /// The same bytes were imported before, as the flight named.
    AlreadyImported(String),
    /// Nothing was left of the telemetry after validation.
    NoTelemetryData,
    /// The log is encrypted and no key is at hand.
    EncryptionKeyRequired,
    /// The keys could not be fetched.
    Api(String),
    /// The decoder crashed on the file.
    Panic(String),
    /// The decoder did not finish within so many seconds.
    Timeout(u64),
    /// The file is of no format that is read here.
    IncompatibleFile,
}

impl ParserError {
    /// The message of the error.
    pub open spec fn text(&self) -> Seq<char> {
        match self {
            ParserError::Io(e) => "IO error: "@ + e@,
            ParserError::Parse(e) => "Parse error: "@ + e@,
            ParserError::AlreadyImported(name) => "File already imported (matches: "@ + name@
                + ")"@,
            ParserError::NoTelemetryData => "No valid telemetry data found"@,
            ParserError::EncryptionKeyRequired => "Encryption key required for V13+ logs"@,
            ParserError::Api(e) => "API error: "@ + e@,
            ParserError::Panic(_) => "Parser crashed on this file (internal panic)"@,
            ParserError::Timeout(secs) => "Parsing timed out after "@ + decimal_text(*secs as nat)
                + " seconds — file may be corrupt or unsupported"@,
            ParserError::IncompatibleFile => "Incompatible file format — only DJI flight logs (.txt), Litchi CSV exports, and Drone Logbook CSV exports are supported"@,
        }
    }

    /// The message of the error, for the user to read.
    pub fn message(&self) -> (m: String)
        ensures
            m@ == self.text(),
    {
        match self {
            ParserError::Io(e) => join2("IO error: ", e.as_str()),
            ParserError::Parse(e) => join2("Parse error: ", e.as_str()),
            ParserError::AlreadyImported(name) => join3(
                "File already imported (matches: ",
                name.as_str(),
                ")",
            ),
            ParserError::NoTelemetryData => "No valid telemetry data found".to_owned(),
            ParserError::EncryptionKeyRequired => "Encryption key required for V13+ logs".to_owned(),
            ParserError::Api(e) => join2("API error: ", e.as_str()),
            ParserError::Panic(_) => "Parser crashed on this file (internal panic)".to_owned(),
            ParserError::Timeout(secs) => {
                let n = write_decimal(*secs);
                join3(
                    "Parsing timed out after ",
                    n.as_str(),
                    " seconds — file may be corrupt or unsupported",
                )
            },
            ParserError::IncompatibleFile => "Incompatible file format — only DJI flight logs (.txt), Litchi CSV exports, and Drone Logbook CSV exports are supported".to_owned(),
        }
    }
}

/// Two texts in a row.
pub fn join2(a: &str, b: &str) -> (r: String)
    ensures
        r@ == a@ + b@,
{
    let mut r = a.to_owned();
    r.append(b);
    r
}

/// Three texts in a row.
pub fn join3(a: &str, b: &str, c: &str) -> (r: String)
    ensures
        r@ == a@ + b@ + c@,
{
    let mut r = a.to_owned();
    r.append(b);
    r.append(c);
    r
}


// ---------------------------------------------------------------------------
// What goes in and what comes out
// ---------------------------------------------------------------------------

/// The formats of log files.
#[derive(Debug, Clone, Copy, PartialEq, Eq, Structural)]
pub enum LogFormat {
    /// A CSV file that this logbook exported.
    DroneLogbookCsv,
    /// A CSV file that the Litchi app exported.
    LitchiCsv,
    /// A binary log of the flight controller.
    BinaryLog,
    /// None of these.
    Unsupported,
}

/// A file as it is handed over: its names, its size and, where it is
/// text, its lines.
#[derive(Debug, Clone, PartialEq, Eq)]
pub struct SourceFile {
    /// The name of the file, with its extension.
    pub file_name: String,
    /// The name of the file without its extension; empty where it has none.
    pub file_stem: String,
    /// The extension, without the dot; empty where the name has none.
    pub extension: String,
    /// The size of the file in bytes.
    pub size: u64,
    /// The lines of the file that could be read as text, without their line
    /// ends.
    pub lines: Vec<String>,
}

/// What the header of a binary log states about the flight.
#[derive(Debug, Clone, PartialEq, Eq)]
pub struct BinaryDetails {
    /// The version of the format.
    pub version: u8,
    /// The name of the product; `Unknown` and what follows it stand for
    /// a product that the decoder does not know.
    pub product_type: String,
    pub aircraft_sn: String,
    pub aircraft_name: String,
    pub battery_sn: String,
    /// The declared duration of the flight; zero or less where none is
    /// declared.
    pub total_time_ms: i64,
    /// The instant at which the flight began.
    pub start_time: i64,
}

/// What is measured outside on the points of a draft.
#[derive(Debug, Clone, PartialEq, Eq)]
pub struct Survey {
    /// The distance over ground from each position of the draft's points
    /// to the next, in millimetres.
    pub legs: Vec<i64>,
    /// The distance over ground from the home position to each position of
    /// the draft's points, in millimetres.
    pub from_home: Vec<i64>,
    /// The ISO 3166-1 alpha-2 code of the country nearest to the home
    /// position; empty where it is not known.
    pub country_code: String,
}

/// A parsed flight before its distances are measured: the metadata lack
/// the id and the total distance, the statistics lack the distances.
#[derive(Debug, Clone, PartialEq, Eq)]
pub struct Draft {
    pub format: LogFormat,
    pub metadata: FlightMetadata,
    pub stats: FlightStats,
    /// The telemetry, in order of time.
    pub points: Vec<TelemetryPoint>,
    /// Automatic tags that the file brought along.
    pub imported_tags: Vec<String>,
    /// Manual tags that the file brought along.
    pub manual_tags: Vec<String>,
    /// Notes that the file brought along.
    pub notes: Option<String>,
}

/// What the pipeline hands to the store.
#[derive(Debug, Clone, PartialEq, Eq)]
pub struct ParseResult {
    pub metadata: FlightMetadata,
    pub points: Vec<TelemetryPoint>,
    /// The automatic tags.
    pub tags: Vec<String>,
    /// Manual tags to keep from a re-imported file.
    pub manual_tags: Vec<String>,
    /// Notes to keep from a re-imported file.
    pub notes: Option<String>,
}

/// How the decoding of a binary log ended.
#[derive(Debug, Clone, PartialEq, Eq)]
pub enum DecodeOutcome {
    /// The frames are there.
    Done,
    /// The time limit ran out.
    TimedOut,
    /// The worker could not be joined.
    JoinFailed(String),
    /// The decoder crashed, with or without a message.
    Panicked(Option<String>),
    /// The decoder refused the file.
    Failed(String),
    /// The keys could not be fetched.
    KeyFetchFailed(String),
}

/// The name under which a flight is shown: the file's stem, or the file's
/// name where the stem is blank.
pub open spec fn display_name_of(file_name: Seq<char>, file_stem: Seq<char>) -> Seq<char> {
    if is_blank(file_stem) {
        file_name
    } else {
        file_stem
    }
}

/// A serial number without white space around it and in capital letters;
/// nothing where nothing is left.
pub open spec fn normalized_serial(text: Seq<char>) -> Option<Seq<char>> {
    let upper = uppercase_of(trimmed(text));
    if upper.len() == 0 {
        None
    } else {
        Some(upper)
    }
}

/// A text, unless it is blank.
pub open spec fn unless_blank(text: Seq<char>) -> Option<Seq<char>> {
    if is_blank(text) {
        None
    } else {
        Some(text)
    }
}

/// The name of a product, unless the decoder does not know it.
pub open spec fn known_model(product_type: Seq<char>) -> Option<Seq<char>> {
    if starts_with_text(product_type, "Unknown"@) {
        None
    } else {
        Some(product_type)
    }
}

/// The duration of a flight from a binary log: the declared one, or the
/// time of the last point where none is declared.
pub open spec fn binary_duration(total_time_ms: i64, last_time: i64) -> i64 {
    if total_time_ms > 0 {
        total_time_ms
    } else {
        last_time
    }
}

/// An instant so many milliseconds after another, held within `i64`.
pub open spec fn instant_after(start: i64, millis: i64) -> i64 {
    clamp_i64(start + millis * 1000)
}

/// What a [`ParserError`] holds.
pub enum ParserErrorView {
    Io(Seq<char>),
    Parse(Seq<char>),
    AlreadyImported(Seq<char>),
    NoTelemetryData,
    EncryptionKeyRequired,
    Api(Seq<char>),
    Panic(Seq<char>),
    Timeout(u64),
    IncompatibleFile,
}

impl View for ParserError {
    type V = ParserErrorView;

    open spec fn view(&self) -> ParserErrorView {
        match self {
            ParserError::Io(e) => ParserErrorView::Io(e@),
            ParserError::Parse(e) => ParserErrorView::Parse(e@),
            ParserError::AlreadyImported(n) => ParserErrorView::AlreadyImported(n@),
            ParserError::NoTelemetryData => ParserErrorView::NoTelemetryData,
            ParserError::EncryptionKeyRequired => ParserErrorView::EncryptionKeyRequired,
            ParserError::Api(e) => ParserErrorView::Api(e@),
            ParserError::Panic(m) => ParserErrorView::Panic(m@),
            ParserError::Timeout(secs) => ParserErrorView::Timeout(*secs),
            ParserError::IncompatibleFile => ParserErrorView::IncompatibleFile,
        }
    }
}

/// The error that stands for the way a decoding ended, if it did not end
/// well.
pub open spec fn decode_error(outcome: DecodeOutcome) -> Option<ParserErrorView> {
    match outcome {
        DecodeOutcome::Done => None,
        DecodeOutcome::TimedOut => Some(ParserErrorView::Timeout(PARSE_TIMEOUT_SECS)),
        DecodeOutcome::JoinFailed(m) => Some(ParserErrorView::Panic("Task join error: "@ + m@)),
        DecodeOutcome::Panicked(Some(m)) => Some(ParserErrorView::Panic(m@)),
        DecodeOutcome::Panicked(None) => Some(ParserErrorView::Panic("unknown panic"@)),
        DecodeOutcome::Failed(m) => Some(ParserErrorView::Parse(m@)),
        DecodeOutcome::KeyFetchFailed(m) => Some(ParserErrorView::Api(m@)),
    }
}

/// What the outcome of a step is worth: nothing where it went well, else
/// what the error holds.
pub open spec fn failure_of<T>(r: Result<T, ParserError>) -> Option<ParserErrorView> {
    match r {
        Ok(_) => None,
        Err(e) => Some(e@),
    }
}

/// Computes the name under which a flight is shown.
pub fn display_name(file_name: &str, file_stem: &str) -> (r: String)
    ensures
        r@ == display_name_of(file_name@, file_stem@),
{
    let stem = chars_of(file_stem);
    if trim(&stem).len() == 0 {
        file_name.to_owned()
    } else {
        file_stem.to_owned()
    }
}

/// Strips a serial number of the white space around it and writes it in
/// capital letters.
pub fn normalize_serial(text: &str) -> (r: Option<String>)
    ensures
        text_of(r) == normalized_serial(text@),
{
    let stripped = string_of(&trim(&chars_of(text)));
    let upper = to_uppercase(stripped.as_str());
    if upper.as_str().is_empty() {
        None
    } else {
        Some(upper)
    }
}

/// Keeps a text unless it is blank.
pub fn keep_unless_blank(text: &str) -> (r: Option<String>)
    ensures
        text_of(r) == unless_blank(text@),
{
    if trim(&chars_of(text)).len() == 0 {
        None
    } else {
        Some(text.to_owned())
    }
}

/// Adds milliseconds to an instant.
pub fn add_millis(start: i64, millis: i64) -> (r: i64)
    ensures
        r == instant_after(start, millis),
{
    let sum: i128 = start as i128 + (millis as i128) * 1000;
    if sum < i64::MIN as i128 {
        i64::MIN
    } else if sum > i64::MAX as i128 {
        i64::MAX
    } else {
        sum as i64
    }
}


// ---------------------------------------------------------------------------
// The parser of binary logs
// ---------------------------------------------------------------------------

/// The statistics of a draft once its distances are measured. A file that
/// this logbook exported has no distance from home, and its average speed
/// is its distance over its duration.
pub open spec fn finished_stats(
    format: LogFormat,
    stats: FlightStats,
    legs: Seq<i64>,
    from_home: Seq<i64>,
) -> FlightStats {
    let total = total_length(legs);
    FlightStats {
        total_distance: total,
        max_distance_from_home: if format != LogFormat::DroneLogbookCsv && stats.home_location
            is Some {
            max_length(from_home)
        } else {
            0
        },
        avg_speed: if format == LogFormat::DroneLogbookCsv {
            speed_over(total, stats.duration_ms)
        } else {
            stats.avg_speed
        },
        ..stats
    }
}

/// A distance in millimetres over a duration in milliseconds, in
/// millimetres per second, cut off toward zero and held within `i64`;
/// zero where the duration is zero or less.
pub open spec fn speed_over(distance: i64, duration_ms: i64) -> i64 {
    if duration_ms > 0 {
        if distance >= 0 {
            clamp_i64((distance * 1000) / (duration_ms as int))
        } else {
            clamp_i64(-((-distance * 1000) / (duration_ms as int)))
        }
    } else {
        0
    }
}

/// The automatic tags of a finished draft. A Litchi file has the tag
/// `Litchi` before the smart tags. A file that this logbook exported has
/// the tag `Re-imported`, then the automatic tags that it brought along,
/// then the smart tags, each tag once.
pub open spec fn finished_tags(
    format: LogFormat,
    imported: Seq<Seq<char>>,
    smart: Seq<Seq<char>>,
) -> Seq<Seq<char>> {
    match format {
        LogFormat::LitchiCsv => seq!["Litchi"@] + smart,
        LogFormat::DroneLogbookCsv => with_new(
            with_new(seq!["Re-imported"@], imported, imported.len() as int),
            smart,
            smart.len() as int,
        ),
        _ => smart,
    }
}

/// Computes a speed from a distance and a duration.
pub fn compute_speed_over(distance: i64, duration_ms: i64) -> (r: i64)
    ensures
        r == speed_over(distance, duration_ms),
{
    if duration_ms <= 0 {
        return 0;
    }
    let d: i128 = duration_ms as i128;
    let q: i128 = if distance >= 0 {
        ((distance as i128) * 1000) / d
    } else {
        -(((-(distance as i128)) * 1000) / d)
    };
    if q < i64::MIN as i128 {
        i64::MIN
    } else if q > i64::MAX as i128 {
        i64::MAX
    } else {
        q as i64
    }
}

/// The parser of flight logs.
#[derive(Debug, Clone, Copy, PartialEq, Eq, Structural)]
pub struct LogParser {}

impl LogParser {
    /// A parser of flight logs.
    pub fn new() -> (parser: LogParser) {
        LogParser {  }
    }

    /// Computes the content hash of a file: its SHA-256 digest in
    /// lower-case hexadecimal digits.
    pub fn calculate_file_hash(content: &[u8]) -> (hash: String)
        ensures
            hash@ == file_hash_of(content@),
            hash@.len() == 64,
    {
        hash_content(content)
    }

    /// Turns the frames of a binary log into telemetry; see
    /// [`extract_points`].
    pub fn extract_telemetry(&self, frames: &Vec<RawFrame>, total_time_ms: i64) -> (r: Validation)
        ensures
            r.points@ == extracted(frames@, total_time_ms),
            is_ordered(r.points@),
            r.points@.len() + r.skipped_corrupt == frames@.len(),
            r.skipped_corrupt == count_upto(frames@, |f: RawFrame| is_corrupt(f), frames@.len()),
            r.skipped_no_gps == count_upto(frames@, |f: RawFrame| lacks_lock(f), frames@.len()),
            r.skipped_out_of_range == count_upto(
                frames@,
                |f: RawFrame| is_out_of_range(f),
                frames@.len(),
            ),
            r.rejected_altitude == count_upto(
                frames@,
                |f: RawFrame| has_bad_altitude(f),
                frames@.len(),
            ),
            r.rejected_height == count_upto(
                frames@,
                |f: RawFrame| has_bad_height(f),
                frames@.len(),
            ),
            r.rejected_speed == count_upto(frames@, |f: RawFrame| has_bad_speed(f), frames@.len()),
    {
        extract_points(frames, total_time_ms)
    }

    /// Computes the statistics of a flight from its points and the
    /// distances measured on them; see [`stats_of_points`].
    pub fn calculate_stats(&self, points: &Vec<TelemetryPoint>, legs: &Vec<i64>, from_home: &Vec<
        i64,
    >) -> (r: FlightStats)
        ensures
            r == stats_of_points(points@, legs@, from_home@),
    {
        stats_from_points(points, legs, from_home)
    }

    /// Derives the smart tags of a flight; see [`smart_tags`].
    pub fn generate_smart_tags(metadata: &FlightMetadata, stats: &FlightStats, cc: &str) -> (tags:
        Vec<String>)
        ensures
            texts(tags@) == smart_tags(*metadata, *stats, cc@),
    {
        generate(metadata, stats, cc)
    }

    /// Takes out the tags of the rules that are not enabled; see
    /// [`filtered_tags`].
    pub fn filter_smart_tags(tags: Vec<String>, enabled_types: &Vec<String>) -> (r: Vec<String>)
        ensures
            texts(r@) == filtered_tags(texts(tags@), texts(enabled_types@)),
    {
        filter(tags, enabled_types)
    }

    /// The place names of a position that lies in the country with the
    /// code `cc`; see [`place_tags`].
    pub fn reverse_geocode(latitude: i64, longitude: i64, cc: &str) -> (tags: Vec<String>)
        ensures
            texts(tags@) == place_tags(latitude, longitude, cc@),
    {
        place_names(latitude, longitude, cc)
    }

    /// The model of the aircraft, unless the decoder does not know it.
    pub fn extract_drone_model(&self, details: &BinaryDetails) -> (r: Option<String>)
        ensures
            text_of(r) == known_model(details.product_type@),
    {
        if starts_with(&chars_of(details.product_type.as_str()), &chars_of("Unknown")) {
            None
        } else {
            Some(details.product_type.clone())
        }
    }

    /// The serial number of the aircraft.
    pub fn extract_serial(&self, details: &BinaryDetails) -> (r: Option<String>)
        ensures
            text_of(r) == normalized_serial(details.aircraft_sn@),
    {
        normalize_serial(details.aircraft_sn.as_str())
    }

    /// The name that the pilot gave the aircraft.
    pub fn extract_aircraft_name(&self, details: &BinaryDetails) -> (r: Option<String>)
        ensures
            text_of(r) == unless_blank(details.aircraft_name@),
    {
        keep_unless_blank(details.aircraft_name.as_str())
    }

    /// The serial number of the battery.
    pub fn extract_battery_serial(&self, details: &BinaryDetails) -> (r: Option<String>)
        ensures
            text_of(r) == normalized_serial(details.battery_sn@),
    {
        normalize_serial(details.battery_sn.as_str())
    }

    /// The instant at which the flight began.
    pub fn extract_start_time(&self, details: &BinaryDetails) -> (r: Option<i64>)
        ensures
            r == Some(details.start_time),
    {
        Some(details.start_time)
    }

    /// The instant at which the flight ended: its start and its declared
    /// duration.
    pub fn extract_end_time(&self, details: &BinaryDetails) -> (r: Option<i64>)
        ensures
            r == Some(instant_after(details.start_time, details.total_time_ms)),
    {
        Some(add_millis(details.start_time, details.total_time_ms))
    }

    /// Says whether a log of this version is encrypted.
    pub fn needs_keychain(version: u8) -> (r: bool)
        ensures
            r == (version >= ENCRYPTED_FROM_VERSION),
    {
        version >= ENCRYPTED_FROM_VERSION
    }

    /// Decides with which key the frames of a log are to be decoded: with
    /// none where the log is not encrypted, with the key at hand where it
    /// is, and not at all where it is and no key is at hand.
    pub fn key_for(version: u8, api_key: Option<String>) -> (r: Result<Option<String>, ParserError>)
        ensures
            version < ENCRYPTED_FROM_VERSION ==> r == Ok::<Option<String>, ParserError>(None),
            version >= ENCRYPTED_FROM_VERSION && api_key is Some ==> r == Ok::<
                Option<String>,
                ParserError,
            >(api_key),
            version >= ENCRYPTED_FROM_VERSION && api_key is None ==> r == Err::<
                Option<String>,
                ParserError,
            >(ParserError::EncryptionKeyRequired),
    {
        if version >= ENCRYPTED_FROM_VERSION {
            match api_key {
                Some(key) => Ok(Some(key)),
                None => Err(ParserError::EncryptionKeyRequired),
            }
        } else {
            Ok(None)
        }
    }

    /// Turns the way a decoding ended into the outcome of the step: a
    /// time-out, a crash and a refusal each become their error, and nothing
    /// of the file is kept.
    pub fn check_decoded(outcome: DecodeOutcome) -> (r: Result<(), ParserError>)
        ensures
            failure_of(r) == decode_error(outcome),
    {
        match outcome {
            DecodeOutcome::Done => Ok(()),
            DecodeOutcome::TimedOut => Err(ParserError::Timeout(PARSE_TIMEOUT_SECS)),
            DecodeOutcome::JoinFailed(m) => Err(
                ParserError::Panic(join2("Task join error: ", m.as_str())),
            ),
            DecodeOutcome::Panicked(Some(m)) => Err(ParserError::Panic(m)),
            DecodeOutcome::Panicked(None) => Err(ParserError::Panic("unknown panic".to_owned())),
            DecodeOutcome::Failed(m) => Err(ParserError::Parse(m)),
            DecodeOutcome::KeyFetchFailed(m) => Err(ParserError::Api(m)),
        }
    }
}

/// The number of points as the metadata state it.
pub open spec fn point_count_of(len: nat) -> i32 {
    if len > i32::MAX {
        i32::MAX
    } else {
        len as i32
    }
}

/// The latitude of the home location.
pub open spec fn home_latitude(stats: FlightStats) -> Option<i64> {
    match stats.home_location {
        Some(h) => Some(h.1),
        None => None,
    }
}

/// The longitude of the home location.
pub open spec fn home_longitude(stats: FlightStats) -> Option<i64> {
    match stats.home_location {
        Some(h) => Some(h.0),
        None => None,
    }
}

/// The metadata that the draft of a binary log states.
pub open spec fn binary_metadata(
    file_name: Seq<char>,
    file_stem: Seq<char>,
    file_hash: Seq<char>,
    details: BinaryDetails,
    stats: FlightStats,
    points: Seq<TelemetryPoint>,
) -> FlightMetadataView {
    FlightMetadataView {
        id: 0,
        file_name,
        display_name: display_name_of(file_name, file_stem),
        file_hash: Some(file_hash),
        drone_model: known_model(details.product_type@),
        drone_serial: normalized_serial(details.aircraft_sn@),
        aircraft_name: unless_blank(details.aircraft_name@),
        battery_serial: normalized_serial(details.battery_sn@),
        start_time: Some(details.start_time),
        end_time: Some(instant_after(details.start_time, details.total_time_ms)),
        duration_ms: Some(binary_duration(details.total_time_ms, stats.duration_ms)),
        total_distance: None,
        max_altitude: Some(stats.max_altitude),
        max_speed: Some(stats.max_speed),
        home_lat: home_latitude(stats),
        home_lon: home_longitude(stats),
        point_count: point_count_of(points.len()),
        photo_count: shot_count(points, Camera::Photo),
        video_count: shot_count(points, Camera::Video),
    }
}

/// Counts points as the metadata state them.
pub fn count_points(len: usize) -> (r: i32)
    ensures
        r == point_count_of(len as nat),
{
    if len > 0x7fff_ffff {
        0x7fff_ffff
    } else {
        len as i32
    }
}

impl LogParser {
    /// Drafts the flight of a decoded binary log. The draft holds the
    /// telemetry of the frames and what the header states. There is no
    /// draft where no point is left: that is an error, not a flight
    /// without telemetry.
    pub fn parse_frames(
        &self,
        file_name: &str,
        file_stem: &str,
        file_hash: &str,
        details: &BinaryDetails,
        frames: &Vec<RawFrame>,
    ) -> (r: Result<Draft, ParserError>)
        ensures
            extracted(frames@, details.total_time_ms).len() == 0 ==> failure_of(r) == Some(
                ParserErrorView::NoTelemetryData,
            ),
            extracted(frames@, details.total_time_ms).len() > 0 ==> r is Ok,
            r matches Ok(d) ==> {
                &&& d.format == LogFormat::BinaryLog
                &&& d.points@ == extracted(frames@, details.total_time_ms)
                &&& is_ordered(d.points@)
                &&& d.stats == stats_of_points(d.points@, Seq::empty(), Seq::empty())
                &&& d.metadata@ == binary_metadata(
                    file_name@,
                    file_stem@,
                    file_hash@,
                    *details,
                    d.stats,
                    d.points@,
                )
                &&& d.imported_tags@.len() == 0
                &&& d.manual_tags@.len() == 0
                &&& d.notes is None
            },
    {
        let validation = self.extract_telemetry(frames, details.total_time_ms);
        let points = validation.points;
        if points.len() == 0 {
            return Err(ParserError::NoTelemetryData);
        }
        let none: Vec<i64> = Vec::new();
        let stats = self.calculate_stats(&points, &none, &none);
        let metadata = FlightMetadata {
            id: 0,
            file_name: file_name.to_owned(),
            display_name: display_name(file_name, file_stem),
            file_hash: Some(file_hash.to_owned()),
            drone_model: self.extract_drone_model(details),
            drone_serial: self.extract_serial(details),
            aircraft_name: self.extract_aircraft_name(details),
            battery_serial: self.extract_battery_serial(details),
            start_time: self.extract_start_time(details),
            end_time: self.extract_end_time(details),
            duration_ms: Some(
                if details.total_time_ms > 0 {
                    details.total_time_ms
                } else {
                    stats.duration_ms
                },
            ),
            total_distance: None,
            max_altitude: Some(stats.max_altitude),
            max_speed: Some(stats.max_speed),
            home_lat: match stats.home_location {
                Some(h) => Some(h.1),
                None => None,
            },
            home_lon: match stats.home_location {
                Some(h) => Some(h.0),
                None => None,
            },
            point_count: count_points(points.len()),
            photo_count: count_shots(&points, Camera::Photo),
            video_count: count_shots(&points, Camera::Video),
        };
        Ok(
            Draft {
                format: LogFormat::BinaryLog,
                metadata,
                stats,
                points,
                imported_tags: Vec::new(),
                manual_tags: Vec::new(),
                notes: None,
            },
        )
    }

    /// Finishes a draft with what was measured on its points: gives the
    /// flight its id and its total distance, completes the statistics and
    /// derives the automatic tags.
    pub fn finish(draft: Draft, survey: &Survey, flight_id: i64) -> (r: ParseResult)
        ensures
            r.points == draft.points,
            r.manual_tags == draft.manual_tags,
            r.notes == draft.notes,
            r.metadata@ == (FlightMetadataView {
                id: flight_id,
                total_distance: Some(total_length(survey.legs@)),
                ..draft.metadata@
            }),
            texts(r.tags@) == finished_tags(
                draft.format,
                texts(draft.imported_tags@),
                smart_tags(
                    draft.metadata,
                    finished_stats(draft.format, draft.stats, survey.legs@, survey.from_home@),
                    survey.country_code@,
                ),
            ),
    {
        let total = total_of(&survey.legs);
        let is_reimport = match draft.format {
            LogFormat::DroneLogbookCsv => true,
            _ => false,
        };
        let stats = FlightStats {
            duration_ms: draft.stats.duration_ms,
            total_distance: total,
            max_altitude: draft.stats.max_altitude,
            max_speed: draft.stats.max_speed,
            avg_speed: if is_reimport {
                compute_speed_over(total, draft.stats.duration_ms)
            } else {
                draft.stats.avg_speed
            },
            min_battery: draft.stats.min_battery,
            home_location: draft.stats.home_location,
            max_distance_from_home: if !is_reimport && draft.stats.home_location.is_some() {
                longest(&survey.from_home)
            } else {
                0
            },
            start_battery_percent: draft.stats.start_battery_percent,
            end_battery_percent: draft.stats.end_battery_percent,
            start_battery_temp: draft.stats.start_battery_temp,
        };
        assert(stats == finished_stats(draft.format, draft.stats, survey.legs@, survey.from_home@));
        let smart = generate(&draft.metadata, &stats, survey.country_code.as_str());
        let tags = match draft.format {
            LogFormat::LitchiCsv => {
                let mut tags = smart;
                let first = "Litchi".to_owned();
                proof {
                    assert(texts(tags@.insert(0, first)) =~= seq!["Litchi"@] + texts(tags@));
                }
                tags.insert(0, first);
                tags
            },
            LogFormat::DroneLogbookCsv => {
                let mut tags: Vec<String> = Vec::new();
                let first = "Re-imported".to_owned();
                proof {
                    assert(texts(tags@.push(first)) =~= seq!["Re-imported"@]);
                }
                tags.push(first);
                push_new(&mut tags, draft.imported_tags);
                push_new(&mut tags, smart);
                tags
            },
            _ => smart,
        };
        let mut metadata = draft.metadata;
        metadata.id = flight_id;
        metadata.total_distance = Some(total);
        ParseResult {
            metadata,
            points: draft.points,
            tags,
            manual_tags: draft.manual_tags,
            notes: draft.notes,
        }
    }
}

/// Computes the statistics of a stored flight from its records and the
/// distances measured on them; see [`stats_of_records`].
pub fn calculate_stats_from_records(records: &Vec<TelemetryRecord>, legs: &Vec<i64>, from_home: &Vec<
    i64,
>) -> (r: FlightStats)
    ensures
        r == stats_of_records(records@, legs@, from_home@),
{
    stats_from_records(records, legs, from_home)
}

/// A file as reading it left it.
#[derive(Debug, Clone, PartialEq, Eq)]
pub enum FileRead {
    /// There is no such file.
    Missing,
    /// The file could not be read; the text says why.
    Failed(String),
    /// The bytes of the file.
    Content(Vec<u8>),
}

/// What comes of hashing a file that was read or was not.
pub open spec fn file_hash_outcome(read: FileRead) -> Result<Seq<char>, Seq<char>> {
    match read {
        FileRead::Missing => Err("File not found"@),
        FileRead::Failed(why) => Err("Failed to compute hash: IO error: "@ + why@),
        FileRead::Content(bytes) => Ok(file_hash_of(bytes@)),
    }
}

/// The texts that an outcome holds.
pub open spec fn outcome_texts(r: Result<String, String>) -> Result<Seq<char>, Seq<char>> {
    match r {
        Ok(s) => Ok(s@),
        Err(e) => Err(e@),
    }
}

/// The content hash of a file that was read, sixty-four hexadecimal
/// digits, or the reason why there is none.
pub fn compute_file_hash(read: &FileRead) -> (r: Result<String, String>)
    ensures
        outcome_texts(r) == file_hash_outcome(*read),
        r is Ok <==> *read is Content,
        r matches Ok(hash) ==> hash@.len() == 64,
{
    match read {
        FileRead::Missing => Err("File not found".to_owned()),
        FileRead::Failed(why) => Err(join2("Failed to compute hash: IO error: ", why.as_str())),
        FileRead::Content(bytes) => Ok(hash_content(bytes.as_slice())),
    }
}


// ---------------------------------------------------------------------------
// Routing
// ---------------------------------------------------------------------------

/// What is to be done next with a file.
#[derive(Debug, Clone, PartialEq, Eq)]
pub enum ParseStep {
    /// The file was a CSV file and is parsed: here is its draft.
    Parsed(Draft),
    /// The file is a binary log: it is to be decoded outside, and its
    /// frames are to be handed to [`LogParser::parse_frames`].
    Decode,
}

/// True when the lines are those of a file that this logbook exported.
pub open spec fn looks_like_export(extension: Seq<char>, lines: Seq<Seq<char>>) -> bool {
    same_ignoring_ascii_case(extension, "csv"@) && first_filled(lines, 0) < lines.len()
        && is_dronelogbook_header(lowercase_of(trimmed(lines[first_filled(lines, 0)])))
}

/// True when the lines are those of a Litchi file.
pub open spec fn looks_like_litchi(extension: Seq<char>, lines: Seq<Seq<char>>) -> bool {
    same_ignoring_ascii_case(extension, "csv"@) && first_filled(lines, 0) < lines.len()
        && is_litchi_header(lowercase_of(lines[first_filled(lines, 0)]))
}

/// The format of a file. An empty file has none. The exports of this
/// logbook are told before those of Litchi; what is neither is a binary
/// log where its extension is `txt`, whatever the case.
pub open spec fn format_of(file: SourceFile) -> LogFormat {
    let lines = texts(file.lines@);
    if file.size == 0 {
        LogFormat::Unsupported
    } else if looks_like_export(file.extension@, lines) {
        LogFormat::DroneLogbookCsv
    } else if looks_like_litchi(file.extension@, lines) {
        LogFormat::LitchiCsv
    } else if same_ignoring_ascii_case(file.extension@, "txt"@) {
        LogFormat::BinaryLog
    } else {
        LogFormat::Unsupported
    }
}

/// Why a file gives no step: it was imported before, it is of no known
/// format, or its parser found fault with it.
pub open spec fn route_failure(file: SourceFile, already_imported: Option<String>) -> Option<
    ParserErrorView,
> {
    match already_imported {
        Some(name) => Some(ParserErrorView::AlreadyImported(name@)),
        None => match format_of(file) {
            LogFormat::DroneLogbookCsv => export_failure(file),
            LogFormat::LitchiCsv => litchi_failure(file),
            LogFormat::BinaryLog => None,
            LogFormat::Unsupported => Some(ParserErrorView::IncompatibleFile),
        },
    }
}

impl LogParser {
    /// Tells the format of a file from its extension and its header,
    /// without parsing it.
    pub fn classify(file: &SourceFile) -> (format: LogFormat)
        ensures
            format == format_of(*file),
    {
        if file.size == 0 {
            LogFormat::Unsupported
        } else if DroneLogbookParser::is_dronelogbook_csv(file.extension.as_str(), &file.lines) {
            LogFormat::DroneLogbookCsv
        } else if LitchiParser::is_litchi_csv(file.extension.as_str(), &file.lines) {
            assert(texts(file.lines@)[0] == file.lines@[0]@);
            LogFormat::LitchiCsv
        } else {
            proof {
                if file.lines@.len() > 0 {
                    assert(texts(file.lines@)[0] == file.lines@[0]@);
                }
            }
            if eq_ignore_ascii_case(&chars_of(file.extension.as_str()), &chars_of("txt")) {
                LogFormat::BinaryLog
            } else {
                LogFormat::Unsupported
            }
        }
    }

    /// Takes a file as far as it can be taken here. A file whose bytes were
    /// imported before is turned away with the name of the flight that it
    /// matches. A CSV file is parsed to a draft. A binary log is sent to be
    /// decoded. Anything else is turned away as incompatible.
    pub fn parse_log(
        &self,
        file: &SourceFile,
        file_hash: &str,
        already_imported: Option<String>,
    ) -> (r: Result<ParseStep, ParserError>)
        ensures
            failure_of(r) == route_failure(*file, already_imported),
            r matches Ok(ParseStep::Decode) ==> format_of(*file) == LogFormat::BinaryLog,
            r matches Ok(ParseStep::Parsed(d)) ==> (format_of(*file) == LogFormat::DroneLogbookCsv
                && is_export_draft(d, *file, file_hash@)) || (format_of(*file)
                == LogFormat::LitchiCsv && is_litchi_draft(d, *file, file_hash@)),
    {
        match already_imported {
            Some(name) => {
                return Err(ParserError::AlreadyImported(name));
            },
            None => {},
        }
        match LogParser::classify(file) {
            LogFormat::DroneLogbookCsv => {
                match DroneLogbookParser::new().parse(file, file_hash) {
                    Ok(d) => Ok(ParseStep::Parsed(d)),
                    Err(e) => Err(e),
                }
            },
            LogFormat::LitchiCsv => {
                match LitchiParser::new().parse(file, file_hash) {
                    Ok(d) => Ok(ParseStep::Parsed(d)),
                    Err(e) => Err(e),
                }
            },
            LogFormat::BinaryLog => Ok(ParseStep::Decode),
            LogFormat::Unsupported => Err(ParserError::IncompatibleFile),
        }
    }
}

} // verus!
