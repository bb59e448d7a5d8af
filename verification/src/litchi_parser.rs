//! Flight logs that the Litchi app exports as CSV.
//!
//! The header of such a file names each column and, in brackets, the unit
//! of its values: `altitude(feet)`, `speed(mph)`. The reader finds a column
//! by its name, whatever the order of the columns and the case of the
//! name, and hands out values in metric units. A blank cell holds
//! nothing.

use vstd::prelude::*;
use crate::csv::{
    data_rows, find_filled, first_filled, header_fields, read_rows, row_texts, split_header,
};
use crate::downsample::floor_div;
use crate::frames::{clamp_i64, sane_point, sanitize_point};
use crate::models::{
    point_views, text_of, FlightMetadata, FlightMetadataView, FlightStats, TelemetryPoint,
    TelemetryPointView,
};
use crate::ordering::{is_ordered, order_by_time, stable_sorted};
use crate::parser::{
    count_points, display_name, display_name_of, failure_of, join3, normalize_serial,
    normalized_serial, point_count_of, Draft, LogFormat, ParserError, ParserErrorView,
    SourceFile,
};
use crate::stats::{
    column_of_points, count_shots, largest, max_present, mean_above, mean_of_above, min_present,
    or_else, points_column, positive_or_zero, shot_count, smallest, value_or_zero, widen, Camera,
    IDLE_SPEED, Quantity,
};

use crate::timestamps::{millis_of, naive_instant, parse_naive};
use crate::numbers::{
    begins_no_number, decimal_literal, in_i32, in_i64, int_literal, lemma_no_number,
    parse_decimal, parse_i32, COORD_SCALE, MILLI_SCALE,
};
use crate::text::{
    chars_of,
    contains,
    contains_text,
    eq_ignore_ascii_case,
    find_char,
    first_index_of,
    is_blank,
    lowercase_of,
    same_ignoring_ascii_case,
    same_text,
    string_of,
    string_of_range,
    texts,
    to_lowercase,
    trim,
    trimmed,
};

verus! {

/// The unit that the header of a column names.
#[derive(Debug, Clone, Copy, PartialEq, Eq, Structural)]
pub enum Unit {
    Feet,
    Meters,
    Mph,
    MetersPerSec,
    Fahrenheit,
    Celsius,
    /// No unit named, or one that is not known.
    Unitless,
}

/// The unit that a lower-case tag names.
pub open spec fn unit_of_tag(tag: Seq<char>) -> Unit {
    if tag == "feet"@ || tag == "ft"@ {
        Unit::Feet
    } else if tag == "m"@ || tag == "meters"@ {
        Unit::Meters
    } else if tag == "mph"@ {
        Unit::Mph
    } else if tag == "m/s"@ {
        Unit::MetersPerSec
    } else if tag == "f"@ {
        Unit::Fahrenheit
    } else if tag == "c"@ {
        Unit::Celsius
    } else {
        Unit::Unitless
    }
}

/// What stands between the first `(` and the first `)` of a header, where
/// both are there and in this order.
pub open spec fn bracketed(header: Seq<char>) -> Option<Seq<char>> {
    let open = first_index_of(header, '(');
    let close = first_index_of(header, ')');
    if open < header.len() && close < header.len() && open < close {
        Some(header.subrange(open + 1, close))
    } else {
        None
    }
}

/// The unit that a header names: the unit of the tag in its brackets,
/// whatever the case of the tag; none without brackets.
pub open spec fn unit_of_header(header: Seq<char>) -> Unit {
    match bracketed(header) {
        Some(tag) => unit_of_tag(lowercase_of(tag)),
        None => Unit::Unitless,
    }
}

/// The name of a column: its header up to the first `(`.
pub open spec fn base_name(header: Seq<char>) -> Seq<char> {
    header.take(first_index_of(header, '('))
}

/// `x * numerator / denominator`, cut off toward zero.
pub open spec fn scaled_toward_zero(x: int, numerator: int, denominator: int) -> int {
    if x * numerator >= 0 {
        (x * numerator) / denominator
    } else {
        -((-(x * numerator)) / denominator)
    }
}

/// A value in thousandths of `unit`, in thousandths of the metric unit:
/// feet in metres, miles per hour in metres per second, degrees Fahrenheit
/// in degrees Celsius.
pub open spec fn metric_value(unit: Unit, value: i64) -> i64 {
    match unit {
        Unit::Feet => scaled_toward_zero(value as int, 3048, 10000) as i64,
        Unit::Mph => scaled_toward_zero(value as int, 44704, 100000) as i64,
        Unit::Fahrenheit => scaled_toward_zero(value as int - 32000, 5, 9) as i64,
        _ => value,
    }
}

fn scale_toward_zero(x: i128, numerator: i128, denominator: i128) -> (r: i64)
    requires
        -0x8000_0000_0000_8000 <= x <= 0x7fff_ffff_ffff_ffff,
        0 < numerator < denominator <= 100000,
        9 * numerator <= 5 * denominator,
    ensures
        r == scaled_toward_zero(x as int, numerator as int, denominator as int),
{
    assert(-0x8000_0000_0000_8000 * 100000 <= x * numerator <= 0x8000_0000_0000_8000 * 100000)
        by (nonlinear_arith)
        requires
            -0x8000_0000_0000_8000 <= x <= 0x7fff_ffff_ffff_ffff,
            0 < numerator <= 100000,
    ;
    let product: i128 = x * numerator;
    assert(x < 0 || product >= 0) by (nonlinear_arith)
        requires
            product == x * numerator,
            numerator > 0,
    ;
    if product >= 0 {
        assert(x >= 0) by (nonlinear_arith)
            requires
                x * numerator >= 0,
                numerator > 0,
        ;
        let q: i128 = product / denominator;
        assert(q <= 0x7fff_ffff_ffff_ffff) by (nonlinear_arith)
            requires
                q == (product as int) / (denominator as int),
                product == x * numerator,
                0 <= x <= 0x7fff_ffff_ffff_ffff,
                0 < numerator < denominator,
        ;
        q as i64
    } else {
        let q: i128 = (-product) / denominator;
        assert(0 <= q <= 0x8000_0000_0000_0000) by (nonlinear_arith)
            requires
                q == ((-product) as int) / (denominator as int),
                product == x * numerator,
                -0x8000_0000_0000_8000 <= x < 0,
                0 < numerator,
                9 * numerator <= 5 * denominator,
        ;
        (-q) as i64
    }
}

impl Unit {
    /// Reads the unit that a lower-case tag names: `feet` or `ft`, `m` or
    /// `meters`, `mph`, `m/s`, `f`, `c`. Any other tag names none.
    pub fn from_tag(tag: &str) -> (unit: Unit)
        ensures
            unit == unit_of_tag(tag@),
    {
        let t = chars_of(tag);
        if same_text(&t, &chars_of("feet")) || same_text(&t, &chars_of("ft")) {
            Unit::Feet
        } else if same_text(&t, &chars_of("m")) || same_text(&t, &chars_of("meters")) {
            Unit::Meters
        } else if same_text(&t, &chars_of("mph")) {
            Unit::Mph
        } else if same_text(&t, &chars_of("m/s")) {
            Unit::MetersPerSec
        } else if same_text(&t, &chars_of("f")) {
            Unit::Fahrenheit
        } else if same_text(&t, &chars_of("c")) {
            Unit::Celsius
        } else {
            Unit::Unitless
        }
    }

    /// Reads the unit from the header of a column, such as
    /// `altitude(feet)` or `speed(m/s)`.
    pub fn from_header(header: &str) -> (unit: Unit)
        ensures
            unit == unit_of_header(header@),
    {
        let h = chars_of(header);
        let open = find_char(&h, '(');
        let close = find_char(&h, ')');
        if open < h.len() && close < h.len() && open < close {
            let tag = string_of_range(&h, open + 1, close);
            let lowered = to_lowercase(tag.as_str());
            Unit::from_tag(lowered.as_str())
        } else {
            Unit::Unitless
        }
    }

    /// Converts a value in thousandths of this unit to thousandths of the
    /// metric unit.
    pub fn to_metric(&self, value: i64) -> (r: i64)
        ensures
            r == metric_value(*self, value),
    {
        match self {
            Unit::Feet => scale_toward_zero(value as i128, 3048, 10000),
            Unit::Mph => scale_toward_zero(value as i128, 44704, 100000),
            Unit::Fahrenheit => scale_toward_zero(value as i128 - 32000, 5, 9),
            _ => value,
        }
    }
}

// ---------------------------------------------------------------------------
// Columns
// ---------------------------------------------------------------------------

/// The last index below `n` at which `names` holds `field`.
pub open spec fn last_index_of_name(names: Seq<Seq<char>>, field: Seq<char>, n: int) -> Option<int>
    decreases n,
{
    if n <= 0 {
        None
    } else if names[n - 1] == field {
        Some(n - 1)
    } else {
        last_index_of_name(names, field, n - 1)
    }
}

/// The last index of a name is an index at which the name stands; where there
/// is none, the name stands nowhere.
pub proof fn lemma_last_index_of_name(names: Seq<Seq<char>>, field: Seq<char>, n: int)
    requires
        0 <= n <= names.len(),
    ensures
        last_index_of_name(names, field, n) matches Some(i) ==> 0 <= i < n && names[i] == field,
        last_index_of_name(names, field, n) is None ==> forall|i: int|
            0 <= i < n ==> #[trigger] names[i] != field,
    decreases n,
{
    if n > 0 && names[n - 1] != field {
        lemma_last_index_of_name(names, field, n - 1);
    }
}

/// Finds the last of `names` that is `field`.
pub fn find_name(names: &Vec<String>, field: &str) -> (r: Option<usize>)
    ensures
        r is Some == last_index_of_name(texts(names@), field@, names@.len() as int) is Some,
        r matches Some(i) ==> last_index_of_name(texts(names@), field@, names@.len() as int)
            == Some(i as int) && i < names@.len(),
{
    let wanted = chars_of(field);
    let mut i: usize = names.len();
    while i > 0
        invariant
            i <= names.len(),
            wanted@ == field@,
            last_index_of_name(texts(names@), field@, names@.len() as int) == last_index_of_name(
                texts(names@),
                field@,
                i as int,
            ),
        decreases i,
    {
        let name = chars_of(names[i - 1].as_str());
        if same_text(&name, &wanted) {
            proof {
                lemma_last_index_of_name(texts(names@), field@, i as int);
            }
            return Some(i - 1);
        }
        i -= 1;
    }
    None
}

/// The columns of a Litchi file: the name of each column in lower case,
/// without the unit in brackets, and its unit.
#[derive(Debug, Clone, PartialEq, Eq)]
pub struct ColumnMap {
    pub names: Vec<String>,
    pub units: Vec<Unit>,
}

/// What a [`ColumnMap`] holds.
pub struct Columns {
    pub names: Seq<Seq<char>>,
    pub units: Seq<Unit>,
}

impl View for ColumnMap {
    type V = Columns;

    open spec fn view(&self) -> Columns {
        Columns { names: texts(self.names@), units: self.units@ }
    }
}

/// The columns that headers name.
pub open spec fn columns_of(headers: Seq<Seq<char>>) -> Columns {
    Columns {
        names: Seq::new(headers.len(), |i: int| lowercase_of(base_name(headers[i]))),
        units: Seq::new(headers.len(), |i: int| unit_of_header(headers[i])),
    }
}

impl Columns {
    /// The index of the column `field`, whatever its case: the last column
    /// of that name.
    pub open spec fn index_of(&self, field: Seq<char>) -> Option<int> {
        last_index_of_name(self.names, lowercase_of(field), self.names.len() as int)
    }

    /// The unit of the column `field`.
    pub open spec fn unit_of(&self, field: Seq<char>) -> Unit {
        match self.index_of(field) {
            Some(i) => if i < self.units.len() {
                self.units[i]
            } else {
                Unit::Unitless
            },
            None => Unit::Unitless,
        }
    }

    /// The text of the column `field` in `row` without the white space
    /// around it, where the column is there, the row is long enough and
    /// the cell is not blank.
    pub open spec fn cell(&self, row: Seq<Seq<char>>, field: Seq<char>) -> Option<Seq<char>> {
        match self.index_of(field) {
            Some(i) => if i < row.len() && !is_blank(row[i]) {
                Some(trimmed(row[i]))
            } else {
                None
            },
            None => None,
        }
    }

    /// The whole number in the column `field` of `row`.
    pub open spec fn int_cell(&self, row: Seq<Seq<char>>, field: Seq<char>) -> Option<i32> {
        match self.cell(row, field) {
            Some(text) => in_i32(int_literal(text)),
            None => None,
        }
    }

    /// The flag in the column `field` of `row`: a whole number, true
    /// unless it is zero.
    pub open spec fn flag_cell(&self, row: Seq<Seq<char>>, field: Seq<char>) -> Option<bool> {
        match self.int_cell(row, field) {
            Some(v) => Some(v != 0),
            None => None,
        }
    }

    /// The measurement in the column `field` of `row`, in thousandths of
    /// the metric unit.
    pub open spec fn metric_cell(&self, row: Seq<Seq<char>>, field: Seq<char>) -> Option<i64> {
        match self.cell(row, field) {
            Some(text) => match in_i64(decimal_literal(text, MILLI_SCALE as nat)) {
                Some(v) => Some(metric_value(self.unit_of(field), v)),
                None => None,
            },
            None => None,
        }
    }

    /// The coordinate in the column `field` of `row`, in units of 1e-7
    /// degree.
    pub open spec fn coordinate_cell(&self, row: Seq<Seq<char>>, field: Seq<char>) -> Option<i64> {
        match self.cell(row, field) {
            Some(text) => in_i64(decimal_literal(text, COORD_SCALE as nat)),
            None => None,
        }
    }
}

impl ColumnMap {
    /// Reads the columns from the headers of a file.
    pub fn new(headers: &Vec<String>) -> (map: ColumnMap)
        ensures
            map@ == columns_of(texts(headers@)),
    {
        let mut names: Vec<String> = Vec::new();
        let mut units: Vec<Unit> = Vec::new();
        let mut i: usize = 0;
        while i < headers.len()
            invariant
                i <= headers.len(),
                texts(names@) =~= Seq::new(
                    i as nat,
                    |k: int| lowercase_of(base_name(headers@[k]@)),
                ),
                units@ =~= Seq::new(i as nat, |k: int| unit_of_header(headers@[k]@)),
            decreases headers.len() - i,
        {
            let h = chars_of(headers[i].as_str());
            let open = find_char(&h, '(');
            let base = string_of_range(&h, 0, open);
            let name = to_lowercase(base.as_str());
            proof {
                assert(h@.subrange(0, open as int) =~= h@.take(open as int));
                crate::text::lemma_texts_push(names@, name);
            }
            names.push(name);
            units.push(Unit::from_header(headers[i].as_str()));
            i += 1;
        }
        proof {
            let c = columns_of(texts(headers@));
            assert(texts(names@) =~= c.names);
            assert(units@ =~= c.units);
        }
        ColumnMap { names, units }
    }

    /// Finds the column `field`, whatever its case.
    fn locate(&self, field: &str) -> (r: Option<usize>)
        ensures
            r is Some == self@.index_of(field@) is Some,
            r matches Some(i) ==> self@.index_of(field@) == Some(i as int) && i < self.names@.len(),
    {
        let lowered = to_lowercase(field);
        find_name(&self.names, lowered.as_str())
    }

    /// The characters of the column `field` in `row` without the white
    /// space around them; nothing for a blank cell.
    fn read_cell(&self, row: &Vec<String>, field: &str) -> (r: Option<Vec<char>>)
        ensures
            match r {
                Some(cell) => self@.cell(texts(row@), field@) == Some(cell@),
                None => self@.cell(texts(row@), field@) is None,
            },
    {
        match self.locate(field) {
            Some(i) => if i < row.len() {
                assert(texts(row@)[i as int] == row@[i as int]@);
                let cell = trim(&chars_of(row[i].as_str()));
                if cell.len() == 0 {
                    None
                } else {
                    Some(cell)
                }
            } else {
                None
            },
            None => None,
        }
    }

    /// Says whether the header names the column `field`, whatever the case
    /// of the name.
    pub fn has_column(&self, field: &str) -> (r: bool)
        ensures
            r == self@.index_of(field@) is Some,
    {
        self.locate(field).is_some()
    }

    /// The text of the column `field` in `row`, without the white space
    /// around it; nothing for a blank cell.
    pub fn get_str(&self, row: &Vec<String>, field: &str) -> (r: Option<String>)
        ensures
            text_of(r) == self@.cell(texts(row@), field@),
    {
        match self.read_cell(row, field) {
            Some(cell) => Some(string_of(&cell)),
            None => None,
        }
    }

    /// The whole number in the column `field` of `row`: nothing where the
    /// column or the cell is not there or the text is no `i32`.
    pub fn get_i32(&self, row: &Vec<String>, field: &str) -> (r: Option<i32>)
        ensures
            r == self@.int_cell(texts(row@), field@),
    {
        match self.read_cell(row, field) {
            Some(cell) => parse_i32(&cell),
            None => None,
        }
    }

    /// The flag in the column `field` of `row`: a whole number, true
    /// unless it is zero.
    pub fn get_bool(&self, row: &Vec<String>, field: &str) -> (r: Option<bool>)
        ensures
            r == self@.flag_cell(texts(row@), field@),
    {
        match self.get_i32(row, field) {
            Some(v) => Some(v != 0),
            None => None,
        }
    }

    /// The unit of the column `field`.
    pub fn get_unit(&self, field: &str) -> (r: Unit)
        ensures
            r == self@.unit_of(field@),
    {
        match self.locate(field) {
            Some(i) => if i < self.units.len() {
                self.units[i]
            } else {
                Unit::Unitless
            },
            None => Unit::Unitless,
        }
    }

    /// The measurement in the column `field` of `row`, converted to
    /// thousandths of the metric unit.
    pub fn get_metric(&self, row: &Vec<String>, field: &str) -> (r: Option<i64>)
        ensures
            r == self@.metric_cell(texts(row@), field@),
    {
        match self.read_cell(row, field) {
            Some(cell) => match parse_decimal(&cell, MILLI_SCALE) {
                Some(v) => Some(self.get_unit(field).to_metric(v)),
                None => None,
            },
            None => None,
        }
    }

    /// The coordinate in the column `field` of `row`, in units of 1e-7
    /// degree.
    pub fn get_coordinate(&self, row: &Vec<String>, field: &str) -> (r: Option<i64>)
        ensures
            r == self@.coordinate_cell(texts(row@), field@),
    {
        match self.read_cell(row, field) {
            Some(cell) => parse_decimal(&cell, COORD_SCALE),
            None => None,
        }
    }
}

// ---------------------------------------------------------------------------
// The parser
// ---------------------------------------------------------------------------

/// The format in which Litchi writes the date and time of a row.
pub open spec fn datetime_format() -> Seq<char> {
    "%Y-%m-%d %H:%M:%S%.f"@
}

/// True when a lower-case header line names the columns that mark a Litchi
/// file.
pub open spec fn is_litchi_header(lowered: Seq<char>) -> bool {
    &&& contains_text(lowered, "latitude"@)
    &&& contains_text(lowered, "longitude"@)
    &&& (contains_text(lowered, "datetime(utc)"@) || contains_text(lowered, "datetime(local)"@))
    &&& (contains_text(lowered, "dronetype"@) || contains_text(lowered, "planename"@)
        || contains_text(lowered, "isflying"@))
}

/// The time of a row within its flight: the column `time` where the file
/// has it (zero for a blank or unreadable cell), else the date and time
/// of the row in milliseconds since the epoch (zero where it cannot be
/// read).
pub open spec fn litchi_time(columns: Columns, row: Seq<Seq<char>>) -> i64 {
    if columns.index_of("time"@) is Some {
        match columns.cell(row, "time"@) {
            Some(text) => value_or_zero(in_i64(int_literal(text))),
            None => 0,
        }
    } else {
        match columns.cell(row, "datetime"@) {
            Some(text) => match naive_instant(text, datetime_format()) {
                Some(instant) => millis_of(instant) as i64,
                None => 0,
            },
            None => 0,
        }
    }
}

/// The point that a row gives.
#[verifier::opaque]
pub open spec fn litchi_point(columns: Columns, row: Seq<Seq<char>>) -> TelemetryPointView {
    TelemetryPointView {
        timestamp_ms: litchi_time(columns, row),
        latitude: columns.coordinate_cell(row, "latitude"@),
        longitude: columns.coordinate_cell(row, "longitude"@),
        altitude: columns.metric_cell(row, "altitude"@),
        height: columns.metric_cell(row, "ultrasonicHeight"@),
        vps_height: columns.metric_cell(row, "ultrasonicHeight"@),
        altitude_abs: None,
        speed: columns.metric_cell(row, "speed"@),
        velocity_x: columns.metric_cell(row, "velocityX"@),
        velocity_y: columns.metric_cell(row, "velocityY"@),
        velocity_z: columns.metric_cell(row, "velocityZ"@),
        pitch: columns.metric_cell(row, "pitch"@),
        roll: columns.metric_cell(row, "roll"@),
        yaw: columns.metric_cell(row, "yaw"@),
        gimbal_pitch: or_else(columns.metric_cell(row, "gimbalPitchRaw"@), columns.metric_cell(row, "gimbalPitch"@)),
        gimbal_roll: or_else(columns.metric_cell(row, "gimbalRollRaw"@), columns.metric_cell(row, "gimbalRoll"@)),
        gimbal_yaw: or_else(columns.metric_cell(row, "gimbalYawRaw"@), columns.metric_cell(row, "gimbalYaw"@)),
        battery_percent: columns.int_cell(row, "remainPowerPercent"@),
        battery_voltage: or_else(columns.metric_cell(row, "voltage"@), columns.metric_cell(row, "currentVoltage"@)),
        battery_current: columns.metric_cell(row, "currentCurrent"@),
        battery_temp: or_else(columns.metric_cell(row, "batteryTemperature"@), columns.metric_cell(row, "temperature"@)),
        cell_voltages: None,
        flight_mode: columns.cell(row, "flightmode"@),
        gps_signal: None,
        satellites: columns.int_cell(row, "satellites"@),
        rc_signal: None,
        rc_uplink: columns.int_cell(row, "uplinkSignalQuality"@),
        rc_downlink: columns.int_cell(row, "downlinkSignalQuality"@),
        rc_aileron: columns.metric_cell(row, "Rc_aileron"@),
        rc_elevator: columns.metric_cell(row, "Rc_elevator"@),
        rc_throttle: columns.metric_cell(row, "Rc_throttle"@),
        rc_rudder: columns.metric_cell(row, "Rc_rudder"@),
        is_photo: columns.flag_cell(row, "istakingphoto"@),
        is_video: columns.flag_cell(row, "isTakingVideo"@),
    }
}

/// The points of the first `n` rows, each put through the filters that
/// every source goes through: one for each row that has a position
/// afterwards.
pub open spec fn positioned_upto(columns: Columns, rows: Seq<Seq<Seq<char>>>, n: int) -> Seq<
    TelemetryPointView,
>
    decreases n,
{
    if n <= 0 {
        Seq::empty()
    } else {
        let before = positioned_upto(columns, rows, n - 1);
        let p = sane_point(litchi_point(columns, rows[n - 1]));
        if p.latitude is Some && p.longitude is Some {
            before.push(p)
        } else {
            before
        }
    }
}

/// The earliest of the first `n` times.
pub open spec fn earliest_upto(points: Seq<TelemetryPointView>, n: int) -> i64
    decreases n,
{
    if n <= 1 {
        points[0].timestamp_ms
    } else {
        let before = earliest_upto(points, n - 1);
        if points[n - 1].timestamp_ms < before {
            points[n - 1].timestamp_ms
        } else {
            before
        }
    }
}

/// The time by which the points are moved back so that they begin at
/// zero: the earliest time where that is above zero, else nothing.
pub open spec fn time_shift(points: Seq<TelemetryPointView>) -> i64 {
    if points.len() > 0 && earliest_upto(points, points.len() as int) > 0 {
        earliest_upto(points, points.len() as int)
    } else {
        0
    }
}

/// The points moved back in time by `shift`.
pub open spec fn shifted(points: Seq<TelemetryPointView>, shift: i64) -> Seq<TelemetryPointView> {
    Seq::new(
        points.len(),
        |i: int|
            TelemetryPointView {
                timestamp_ms: (points[i].timestamp_ms - shift) as i64,
                ..points[i]
            },
    )
}

/// The points of a Litchi file in the order of its rows, beginning at
/// time zero.
pub open spec fn litchi_points(columns: Columns, rows: Seq<Seq<Seq<char>>>) -> Seq<
    TelemetryPointView,
> {
    let raw = positioned_upto(columns, rows, rows.len() as int);
    shifted(raw, time_shift(raw))
}

/// A row without a latitude or a longitude that can be read gives no
/// point.
pub proof fn lemma_row_without_position_gives_no_point(columns: Columns, row: Seq<Seq<char>>)
    requires
        columns.coordinate_cell(row, "latitude"@) is None || columns.coordinate_cell(
            row,
            "longitude"@,
        ) is None,
    ensures
        !(sane_point(litchi_point(columns, row)).latitude is Some && sane_point(
            litchi_point(columns, row),
        ).longitude is Some),
{
    reveal(litchi_point);
}

/// A cell that begins with what begins no number, `NaN` or `inf` among
/// it, holds no coordinate.
pub proof fn lemma_no_number_is_no_coordinate(
    columns: Columns,
    row: Seq<Seq<char>>,
    field: Seq<char>,
)
    requires
        columns.cell(row, field) matches Some(text) ==> begins_no_number(text),
    ensures
        columns.coordinate_cell(row, field) is None,
{
    match columns.cell(row, field) {
        Some(text) => {
            lemma_no_number(text, COORD_SCALE as nat);
        },
        None => {},
    }
}

/// Taking a row without a position out of the rows leaves the points of
/// the first `n` rows as they are.
proof fn lemma_positioned_without_row(
    columns: Columns,
    rows: Seq<Seq<Seq<char>>>,
    k: int,
    n: int,
)
    requires
        0 <= k < rows.len(),
        0 <= n <= rows.len(),
        !(sane_point(litchi_point(columns, rows[k])).latitude is Some && sane_point(
            litchi_point(columns, rows[k]),
        ).longitude is Some),
    ensures
        n <= k ==> positioned_upto(columns, rows.remove(k), n) == positioned_upto(columns, rows, n),
        n > k ==> positioned_upto(columns, rows.remove(k), n - 1) == positioned_upto(
            columns,
            rows,
            n,
        ),
    decreases n,
{
    if n > 0 {
        lemma_positioned_without_row(columns, rows, k, n - 1);
        if n <= k {
            assert(rows.remove(k)[n - 1] == rows[n - 1]);
        } else if n - 1 > k {
            assert(rows.remove(k)[n - 2] == rows[n - 1]);
        }
    }
}

/// A row whose latitude or longitude cannot be read is dropped, it alone:
/// the points of the file are those of the other rows, point for point and in the
/// same order.
pub proof fn lemma_row_without_position_is_dropped(
    columns: Columns,
    rows: Seq<Seq<Seq<char>>>,
    k: int,
)
    requires
        0 <= k < rows.len(),
        columns.coordinate_cell(rows[k], "latitude"@) is None || columns.coordinate_cell(
            rows[k],
            "longitude"@,
        ) is None,
    ensures
        litchi_points(columns, rows.remove(k)) == litchi_points(columns, rows),
{
    lemma_row_without_position_gives_no_point(columns, rows[k]);
    lemma_positioned_without_row(columns, rows, k, rows.len() as int);
}

/// The name of the model with the code `type_code`.
pub open spec fn drone_type_name(type_code: Seq<char>) -> Seq<char> {
    let code = trimmed(type_code);
    if code == "0"@ {
        "Unknown"@
    } else if code == "1"@ {
        "Inspire 1"@
    } else if code == "2"@ {
        "Phantom 3 Standard"@
    } else if code == "3"@ {
        "Phantom 3 Advanced"@
    } else if code == "4"@ {
        "Phantom 3 Professional"@
    } else if code == "5"@ {
        "Phantom 3 4K"@
    } else if code == "6"@ {
        "Mavic Pro"@
    } else if code == "7"@ {
        "Inspire 2"@
    } else if code == "8"@ {
        "Phantom 4"@
    } else if code == "9"@ {
        "Phantom 4 Pro"@
    } else if code == "10"@ {
        "Phantom 4 Advanced"@
    } else if code == "11"@ {
        "Mavic Air"@
    } else if code == "14"@ {
        "Mavic 2 Pro"@
    } else if code == "15"@ {
        "Mavic 2 Zoom"@
    } else if code == "16"@ {
        "Mavic 2 Enterprise"@
    } else if code == "17"@ {
        "Mavic Mini"@
    } else if code == "18"@ {
        "Mavic Air 2"@
    } else if code == "19"@ {
        "DJI FPV"@
    } else if code == "20"@ {
        "Mini 2"@
    } else if code == "21"@ {
        "Spark"@
    } else if code == "23"@ {
        "Air 2S"@
    } else if code == "58"@ {
        "Mini SE"@
    } else {
        "DJI Drone ("@ + type_code + ")"@
    }
}

/// A text that is there, changed by `f`.
pub open spec fn map_text(text: Option<Seq<char>>, f: spec_fn(Seq<char>) -> Seq<char>) -> Option<
    Seq<char>,
> {
    match text {
        Some(t) => Some(f(t)),
        None => None,
    }
}

/// The instant that a cell writes.
pub open spec fn instant_of_cell(text: Option<Seq<char>>) -> Option<i64> {
    match text {
        Some(t) => naive_instant(t, datetime_format()),
        None => None,
    }
}

/// The serial number that a cell writes, as the logbook keeps serial numbers.
pub open spec fn serial_of_cell(text: Option<Seq<char>>) -> Option<Seq<char>> {
    match text {
        Some(t) => normalized_serial(t),
        None => None,
    }
}

/// The time from the first point to the last, where there are two points
/// at least.
pub open spec fn span_of(points: Seq<TelemetryPoint>) -> Option<i64> {
    if points.len() >= 2 {
        Some(clamp_i64(points.last().timestamp_ms - points[0].timestamp_ms))
    } else {
        None
    }
}

/// The time from one instant to another in milliseconds, cut off toward
/// zero.
pub open spec fn millis_between(start: i64, end: i64) -> i64 {
    crate::downsample::mean_toward_zero(end - start, 1000) as i64
}

/// The duration of a Litchi flight: from the date and time of its first
/// row to that of its last, in milliseconds; the time from its first point
/// to its last where the rows do not tell.
pub open spec fn litchi_duration(
    start: Option<i64>,
    end: Option<i64>,
    points: Seq<TelemetryPoint>,
) -> Option<i64> {
    if start is Some && end is Some {
        Some(millis_between(start->0, end->0))
    } else {
        span_of(points)
    }
}

/// The home position that a Litchi file states, unless it is within a
/// thousandth of a degree of the origin: longitude first, latitude second.
pub open spec fn stated_home(latitude: Option<i64>, longitude: Option<i64>) -> Option<(i64, i64)> {
    if latitude is Some && longitude is Some && (latitude->0 > 10_000 || latitude->0 < -10_000
        || longitude->0 > 10_000 || longitude->0 < -10_000) {
        Some((longitude->0, latitude->0))
    } else {
        None
    }
}

/// The statistics that the draft of a Litchi flight states.
pub open spec fn litchi_stats(
    columns: Columns,
    first_row: Seq<Seq<char>>,
    last_row: Seq<Seq<char>>,
    points: Seq<TelemetryPoint>,
) -> FlightStats {
    let end_charge = columns.int_cell(last_row, "remainPowerPercent"@);
    FlightStats {
        duration_ms: value_or_zero(span_of(points)),
        total_distance: 0,
        max_altitude: positive_or_zero(max_present(points_column(points, Quantity::Altitude))),
        max_speed: positive_or_zero(max_present(points_column(points, Quantity::Speed))),
        avg_speed: mean_above(points_column(points, Quantity::Speed), IDLE_SPEED) as i64,
        min_battery: match min_present(points_column(points, Quantity::BatteryPercent)) {
            Some(low) => low as i32,
            None => match end_charge {
                Some(c) => c,
                None => 0,
            },
        },
        home_location: stated_home(
            columns.coordinate_cell(first_row, "home_latitude"@),
            columns.coordinate_cell(first_row, "home_longitude"@),
        ),
        max_distance_from_home: 0,
        start_battery_percent: columns.int_cell(first_row, "remainPowerPercent"@),
        end_battery_percent: end_charge,
        start_battery_temp: or_else(
            columns.metric_cell(first_row, "batteryTemperature"@),
            columns.metric_cell(first_row, "temperature"@),
        ),
    }
}

/// The metadata that the draft of a Litchi flight states.
pub open spec fn litchi_metadata(
    file_name: Seq<char>,
    file_stem: Seq<char>,
    file_hash: Seq<char>,
    columns: Columns,
    first_row: Seq<Seq<char>>,
    last_row: Seq<Seq<char>>,
    points: Seq<TelemetryPoint>,
) -> FlightMetadataView {
    let start = instant_of_cell(columns.cell(first_row, "datetime"@));
    let end = instant_of_cell(columns.cell(last_row, "datetime"@));
    FlightMetadataView {
        id: 0,
        file_name,
        display_name: display_name_of(file_name, file_stem),
        file_hash: Some(file_hash),
        drone_model: map_text(
            columns.cell(first_row, "Dronetype"@),
            |code: Seq<char>| drone_type_name(code),
        ),
        drone_serial: serial_of_cell(columns.cell(first_row, "FlyControllerSerialNumber"@)),
        aircraft_name: columns.cell(first_row, "Planename"@),
        battery_serial: serial_of_cell(columns.cell(first_row, "BatterySerialNumber"@)),
        start_time: start,
        end_time: end,
        duration_ms: litchi_duration(start, end, points),
        total_distance: None,
        max_altitude: Some(
            positive_or_zero(max_present(points_column(points, Quantity::Altitude))),
        ),
        max_speed: Some(positive_or_zero(max_present(points_column(points, Quantity::Speed)))),
        home_lat: columns.coordinate_cell(first_row, "home_latitude"@),
        home_lon: columns.coordinate_cell(first_row, "home_longitude"@),
        point_count: point_count_of(points.len()),
        photo_count: shot_count(points, Camera::Photo),
        video_count: shot_count(points, Camera::Video),
    }
}

/// The first of two values that is there.
pub fn either(a: Option<i64>, b: Option<i64>) -> (r: Option<i64>)
    ensures
        r == or_else(a, b),
{
    match a {
        Some(v) => Some(v),
        None => b,
    }
}

/// Says whether a lower-case header line names the columns that mark a
/// Litchi file.
pub fn check_litchi_header(lowered: &str) -> (r: bool)
    ensures
        r == is_litchi_header(lowered@),
{
    let line = chars_of(lowered);
    contains(&line, &chars_of("latitude")) && contains(&line, &chars_of("longitude")) && (contains(
        &line,
        &chars_of("datetime(utc)"),
    ) || contains(&line, &chars_of("datetime(local)"))) && (contains(
        &line,
        &chars_of("dronetype"),
    ) || contains(&line, &chars_of("planename")) || contains(&line, &chars_of("isflying")))
}

/// The parser of Litchi files.
#[derive(Debug, Clone, Copy, PartialEq, Eq, Structural)]
pub struct LitchiParser {}

impl LitchiParser {
    /// A parser of Litchi files.
    pub fn new() -> (parser: LitchiParser) {
        LitchiParser {  }
    }

    /// Says whether a file is a Litchi file: its extension is `csv`,
    /// whatever the case, and its first line that is not blank names the
    /// columns that mark one.
    pub fn is_litchi_csv(extension: &str, lines: &Vec<String>) -> (r: bool)
        ensures
            r == (same_ignoring_ascii_case(extension@, "csv"@) && first_filled(texts(lines@), 0)
                < lines@.len() && is_litchi_header(
                lowercase_of(texts(lines@)[first_filled(texts(lines@), 0)]),
            )),
    {
        if !eq_ignore_ascii_case(&chars_of(extension), &chars_of("csv")) {
            return false;
        }
        let header = find_filled(lines, 0);
        if header >= lines.len() {
            return false;
        }
        assert(texts(lines@)[header as int] == lines@[header as int]@);
        let lowered = to_lowercase(lines[header].as_str());
        check_litchi_header(lowered.as_str())
    }

    /// The name of the model with the code `type_code`.
    pub fn map_drone_type(&self, type_code: &str) -> (name: String)
        ensures
            name@ == drone_type_name(type_code@),
    {
        let code = trim(&chars_of(type_code));
        if same_text(&code, &chars_of("0")) {
            "Unknown".to_owned()
        } else if same_text(&code, &chars_of("1")) {
            "Inspire 1".to_owned()
        } else if same_text(&code, &chars_of("2")) {
            "Phantom 3 Standard".to_owned()
        } else if same_text(&code, &chars_of("3")) {
            "Phantom 3 Advanced".to_owned()
        } else if same_text(&code, &chars_of("4")) {
            "Phantom 3 Professional".to_owned()
        } else if same_text(&code, &chars_of("5")) {
            "Phantom 3 4K".to_owned()
        } else if same_text(&code, &chars_of("6")) {
            "Mavic Pro".to_owned()
        } else if same_text(&code, &chars_of("7")) {
            "Inspire 2".to_owned()
        } else if same_text(&code, &chars_of("8")) {
            "Phantom 4".to_owned()
        } else if same_text(&code, &chars_of("9")) {
            "Phantom 4 Pro".to_owned()
        } else if same_text(&code, &chars_of("10")) {
            "Phantom 4 Advanced".to_owned()
        } else if same_text(&code, &chars_of("11")) {
            "Mavic Air".to_owned()
        } else if same_text(&code, &chars_of("14")) {
            "Mavic 2 Pro".to_owned()
        } else if same_text(&code, &chars_of("15")) {
            "Mavic 2 Zoom".to_owned()
        } else if same_text(&code, &chars_of("16")) {
            "Mavic 2 Enterprise".to_owned()
        } else if same_text(&code, &chars_of("17")) {
            "Mavic Mini".to_owned()
        } else if same_text(&code, &chars_of("18")) {
            "Mavic Air 2".to_owned()
        } else if same_text(&code, &chars_of("19")) {
            "DJI FPV".to_owned()
        } else if same_text(&code, &chars_of("20")) {
            "Mini 2".to_owned()
        } else if same_text(&code, &chars_of("21")) {
            "Spark".to_owned()
        } else if same_text(&code, &chars_of("23")) {
            "Air 2S".to_owned()
        } else if same_text(&code, &chars_of("58")) {
            "Mini SE".to_owned()
        } else {
            join3("DJI Drone (", type_code, ")")
        }
    }

    /// The time of a row within its flight.
    pub fn row_time(&self, columns: &ColumnMap, row: &Vec<String>) -> (t: i64)
        ensures
            t == litchi_time(columns@, texts(row@)),
    {
        if columns.has_column("time") {
            match columns.get_str(row, "time") {
                Some(text) => match crate::numbers::parse_i64(&chars_of(text.as_str())) {
                    Some(v) => v,
                    None => 0,
                },
                None => 0,
            }
        } else {
            match columns.get_str(row, "datetime") {
                Some(text) => match parse_naive(text.as_str(), "%Y-%m-%d %H:%M:%S%.f") {
                    Some(instant) => floor_div(instant, 1000),
                    None => 0,
                },
                None => 0,
            }
        }
    }

    /// Reads one row as a point.
    pub fn parse_row(&self, columns: &ColumnMap, row: &Vec<String>) -> (p: TelemetryPoint)
        ensures
            p@ == litchi_point(columns@, texts(row@)),
    {
        reveal(litchi_point);
        TelemetryPoint {
            timestamp_ms: self.row_time(columns, row),
            latitude: columns.get_coordinate(row, "latitude"),
            longitude: columns.get_coordinate(row, "longitude"),
            altitude: columns.get_metric(row, "altitude"),
            height: columns.get_metric(row, "ultrasonicHeight"),
            vps_height: columns.get_metric(row, "ultrasonicHeight"),
            altitude_abs: None,
            speed: columns.get_metric(row, "speed"),
            velocity_x: columns.get_metric(row, "velocityX"),
            velocity_y: columns.get_metric(row, "velocityY"),
            velocity_z: columns.get_metric(row, "velocityZ"),
            pitch: columns.get_metric(row, "pitch"),
            roll: columns.get_metric(row, "roll"),
            yaw: columns.get_metric(row, "yaw"),
            gimbal_pitch: either(columns.get_metric(row, "gimbalPitchRaw"), columns.get_metric(row, "gimbalPitch")),
            gimbal_roll: either(columns.get_metric(row, "gimbalRollRaw"), columns.get_metric(row, "gimbalRoll")),
            gimbal_yaw: either(columns.get_metric(row, "gimbalYawRaw"), columns.get_metric(row, "gimbalYaw")),
            battery_percent: columns.get_i32(row, "remainPowerPercent"),
            battery_voltage: either(columns.get_metric(row, "voltage"), columns.get_metric(row, "currentVoltage")),
            battery_current: columns.get_metric(row, "currentCurrent"),
            battery_temp: either(columns.get_metric(row, "batteryTemperature"), columns.get_metric(row, "temperature")),
            cell_voltages: None,
            flight_mode: columns.get_str(row, "flightmode"),
            gps_signal: None,
            satellites: columns.get_i32(row, "satellites"),
            rc_signal: None,
            rc_uplink: columns.get_i32(row, "uplinkSignalQuality"),
            rc_downlink: columns.get_i32(row, "downlinkSignalQuality"),
            rc_aileron: columns.get_metric(row, "Rc_aileron"),
            rc_elevator: columns.get_metric(row, "Rc_elevator"),
            rc_throttle: columns.get_metric(row, "Rc_throttle"),
            rc_rudder: columns.get_metric(row, "Rc_rudder"),
            is_photo: columns.get_bool(row, "istakingphoto"),
            is_video: columns.get_bool(row, "isTakingVideo"),
        }
    }
}

/// Rows give no more points than there are rows.
pub proof fn lemma_positioned_upto_len(columns: Columns, rows: Seq<Seq<Seq<char>>>, n: int)
    ensures
        positioned_upto(columns, rows, n).len() <= if n <= 0 { 0 } else { n },
    decreases n,
{
    if n > 0 {
        lemma_positioned_upto_len(columns, rows, n - 1);
    }
}

/// No point is earlier than the earliest.
pub proof fn lemma_earliest_is_lower_bound(points: Seq<TelemetryPointView>, n: int)
    requires
        1 <= n <= points.len(),
    ensures
        forall|i: int| 0 <= i < n ==> earliest_upto(points, n) <= (#[trigger] points[i]).timestamp_ms,
    decreases n,
{
    if n > 1 {
        lemma_earliest_is_lower_bound(points, n - 1);
    }
}

/// What a successful parse of a Litchi file gives.
pub open spec fn is_litchi_draft(d: Draft, file: SourceFile, file_hash: Seq<char>) -> bool {
    let lines = texts(file.lines@);
    let header = first_filled(lines, 0);
    let columns = columns_of(header_fields(lines[header]));
    let rows = data_rows(lines, header + 1, header_fields(lines[header]).len() as int);
    &&& d.format == LogFormat::LitchiCsv
    &&& exists|raw: Seq<TelemetryPoint>|
        #[trigger] point_views(raw) == litchi_points(columns, rows) && d.points@ == stable_sorted(
            raw,
        )
    &&& is_ordered(d.points@)
    &&& rows.len() > 0
    &&& d.stats == litchi_stats(columns, rows[0], rows.last(), d.points@)
    &&& d.metadata@ == litchi_metadata(
        file.file_name@,
        file.file_stem@,
        file_hash,
        columns,
        rows[0],
        rows.last(),
        d.points@,
    )
    &&& d.imported_tags@.len() == 0
    &&& d.manual_tags@.len() == 0
    &&& d.notes is None
}

/// What parsing a Litchi file comes to: an error for a file without a
/// line that is not blank and for one without a row that has a position,
/// else a draft.
pub open spec fn litchi_failure(file: SourceFile) -> Option<ParserErrorView> {
    let lines = texts(file.lines@);
    let header = first_filled(lines, 0);
    if header >= lines.len() {
        Some(ParserErrorView::Parse("Empty CSV file"@))
    } else {
        let columns = columns_of(header_fields(lines[header]));
        let rows = data_rows(lines, header + 1, header_fields(lines[header]).len() as int);
        if litchi_points(columns, rows).len() == 0 {
            Some(ParserErrorView::NoTelemetryData)
        } else {
            None
        }
    }
}

impl LitchiParser {
    /// Reads the rows as points, in the order of the rows, and leaves out
    /// the rows without a position.
    pub fn read_points(&self, columns: &ColumnMap, rows: &Vec<Vec<String>>) -> (points: Vec<
        TelemetryPoint,
    >)
        ensures
            point_views(points@) == positioned_upto(
                columns@,
                row_texts(rows@),
                rows@.len() as int,
            ),
    {
        let mut points: Vec<TelemetryPoint> = Vec::new();
        let mut i: usize = 0;
        assert(point_views(points@) =~= positioned_upto(columns@, row_texts(rows@), 0));
        while i < rows.len()
            invariant
                i <= rows.len(),
                point_views(points@) == positioned_upto(columns@, row_texts(rows@), i as int),
            decreases rows.len() - i,
        {
            let p = sanitize_point(self.parse_row(columns, &rows[i]));
            assert(row_texts(rows@)[i as int] == texts(rows@[i as int]@));
            if p.latitude.is_some() && p.longitude.is_some() {
                proof {
                    assert(point_views(points@.push(p)) =~= point_views(points@).push(p@));
                }
                points.push(p);
            }
            i += 1;
        }
        points
    }

    /// Moves the points back in time so that they begin at zero, where
    /// they begin later.
    pub fn normalize_times(&self, points: Vec<TelemetryPoint>) -> (r: Vec<TelemetryPoint>)
        ensures
            point_views(r@) == shifted(point_views(points@), time_shift(point_views(points@))),
    {
        let ghost views = point_views(points@);
        if points.len() == 0 {
            assert(point_views(points@) =~= shifted(views, time_shift(views)));
            return points;
        }
        let mut earliest: i64 = points[0].timestamp_ms;
        let mut i: usize = 1;
        while i < points.len()
            invariant
                1 <= i <= points.len(),
                views == point_views(points@),
                earliest == earliest_upto(views, i as int),
            decreases points.len() - i,
        {
            assert(views[i as int].timestamp_ms == points@[i as int].timestamp_ms);
            if points[i].timestamp_ms < earliest {
                earliest = points[i].timestamp_ms;
            }
            i += 1;
        }
        if earliest <= 0 {
            assert(point_views(points@) =~= shifted(views, 0));
            return points;
        }
        proof {
            lemma_earliest_is_lower_bound(views, views.len() as int);
        }
        let mut moved: Vec<TelemetryPoint> = Vec::new();
        let n = points.len();
        let mut k: usize = 0;
        for p in it: points
            invariant
                it.seq().len() == n,
                views == point_views(it.seq()),
                k == it.index(),
                earliest > 0,
                forall|j: int| 0 <= j < views.len() ==> earliest <= (#[trigger] views[j]).timestamp_ms,
                point_views(moved@) =~= Seq::new(
                    k as nat,
                    |j: int|
                        TelemetryPointView {
                            timestamp_ms: (views[j].timestamp_ms - earliest) as i64,
                            ..views[j]
                        },
                ),
        {
            assert(views[k as int] == p@);
            let mut q = p;
            q.timestamp_ms = q.timestamp_ms - earliest;
            proof {
                assert(point_views(moved@.push(q)) =~= point_views(moved@).push(q@));
            }
            moved.push(q);
            k += 1;
        }
        proof {
            assert(point_views(moved@) =~= shifted(views, earliest));
        }
        moved
    }
}

/// Computes the time from one instant to another in milliseconds.
pub fn compute_millis_between(start: i64, end: i64) -> (r: i64)
    ensures
        r == millis_between(start, end),
{
    let diff: i128 = end as i128 - start as i128;
    if diff >= 0 {
        (diff / 1000) as i64
    } else {
        (-((-diff) / 1000)) as i64
    }
}

/// Computes the time from the first point to the last.
pub fn compute_span(points: &Vec<TelemetryPoint>) -> (r: Option<i64>)
    ensures
        r == span_of(points@),
{
    if points.len() >= 2 {
        let diff: i128 = points[points.len() - 1].timestamp_ms as i128
            - points[0].timestamp_ms as i128;
        Some(
            if diff < i64::MIN as i128 {
                i64::MIN
            } else if diff > i64::MAX as i128 {
                i64::MAX
            } else {
                diff as i64
            },
        )
    } else {
        None
    }
}

fn positive_part(x: Option<i64>) -> (r: i64)
    ensures
        r == positive_or_zero(x),
{
    match x {
        Some(v) => if v > 0 {
            v
        } else {
            0
        },
        None => 0,
    }
}

impl LitchiParser {
    /// Computes the statistics that the draft of a Litchi flight states.
    pub fn calculate_stats(
        &self,
        points: &Vec<TelemetryPoint>,
        columns: &ColumnMap,
        first_row: &Vec<String>,
        last_row: &Vec<String>,
    ) -> (stats: FlightStats)
        ensures
            stats == litchi_stats(columns@, texts(first_row@), texts(last_row@), points@),
    {
        let altitude = column_of_points(points, Quantity::Altitude);
        let speed = column_of_points(points, Quantity::Speed);
        let charge = column_of_points(points, Quantity::BatteryPercent);
        let end_charge = columns.get_i32(last_row, "remainPowerPercent");
        let lowest = smallest(&charge);
        proof {
            assert forall|x: Option<i64>| charge@.contains(x) && x is Some implies i32::MIN
                <= x->0 <= i32::MAX by {
                let k = choose|k: int| 0 <= k < charge@.len() && charge@[k] == x;
                assert(charge@[k] == widen(points@[k].battery_percent));
            }
        }
        let home_lat = columns.get_coordinate(first_row, "home_latitude");
        let home_lon = columns.get_coordinate(first_row, "home_longitude");
        let home = match (home_lat, home_lon) {
            (Some(lat), Some(lon)) => if lat > 10_000 || lat < -10_000 || lon > 10_000 || lon
                < -10_000 {
                Some((lon, lat))
            } else {
                None
            },
            _ => None,
        };
        FlightStats {
            duration_ms: match compute_span(points) {
                Some(d) => d,
                None => 0,
            },
            total_distance: 0,
            max_altitude: positive_part(largest(&altitude)),
            max_speed: positive_part(largest(&speed)),
            avg_speed: mean_of_above(&speed, IDLE_SPEED),
            min_battery: match lowest {
                Some(low) => low as i32,
                None => match end_charge {
                    Some(c) => c,
                    None => 0,
                },
            },
            home_location: home,
            max_distance_from_home: 0,
            start_battery_percent: columns.get_i32(first_row, "remainPowerPercent"),
            end_battery_percent: end_charge,
            start_battery_temp: either(
                columns.get_metric(first_row, "batteryTemperature"),
                columns.get_metric(first_row, "temperature"),
            ),
        }
    }

    /// Gathers the metadata that the draft of a Litchi flight states.
    pub fn extract_metadata(
        &self,
        file: &SourceFile,
        file_hash: &str,
        columns: &ColumnMap,
        first_row: &Vec<String>,
        last_row: &Vec<String>,
        points: &Vec<TelemetryPoint>,
    ) -> (metadata: FlightMetadata)
        ensures
            metadata@ == litchi_metadata(
                file.file_name@,
                file.file_stem@,
                file_hash@,
                columns@,
                texts(first_row@),
                texts(last_row@),
                points@,
            ),
    {
        let start = match columns.get_str(first_row, "datetime") {
            Some(t) => parse_naive(t.as_str(), "%Y-%m-%d %H:%M:%S%.f"),
            None => None,
        };
        let end = match columns.get_str(last_row, "datetime") {
            Some(t) => parse_naive(t.as_str(), "%Y-%m-%d %H:%M:%S%.f"),
            None => None,
        };
        let duration = match (start, end) {
            (Some(s), Some(e)) => Some(compute_millis_between(s, e)),
            _ => compute_span(points),
        };
        let altitude = column_of_points(points, Quantity::Altitude);
        let speed = column_of_points(points, Quantity::Speed);
        FlightMetadata {
            id: 0,
            file_name: file.file_name.clone(),
            display_name: display_name(file.file_name.as_str(), file.file_stem.as_str()),
            file_hash: Some(file_hash.to_owned()),
            drone_model: match columns.get_str(first_row, "Dronetype") {
                Some(code) => Some(self.map_drone_type(code.as_str())),
                None => None,
            },
            drone_serial: match columns.get_str(first_row, "FlyControllerSerialNumber") {
                Some(sn) => normalize_serial(sn.as_str()),
                None => None,
            },
            aircraft_name: columns.get_str(first_row, "Planename"),
            battery_serial: match columns.get_str(first_row, "BatterySerialNumber") {
                Some(sn) => normalize_serial(sn.as_str()),
                None => None,
            },
            start_time: start,
            end_time: end,
            duration_ms: duration,
            total_distance: None,
            max_altitude: Some(positive_part(largest(&altitude))),
            max_speed: Some(positive_part(largest(&speed))),
            home_lat: columns.get_coordinate(first_row, "home_latitude"),
            home_lon: columns.get_coordinate(first_row, "home_longitude"),
            point_count: count_points(points.len()),
            photo_count: count_shots(points, Camera::Photo),
            video_count: count_shots(points, Camera::Video),
        }
    }

    /// Parses a Litchi file. The first line that is not blank is the
    /// header; every later line that is not blank and has at least half as
    /// many fields as the header is a row. Every row is put through the filters that every
    /// source goes through, and every row that has a position afterwards
    /// gives a point. The points begin at time zero and are in order of
    /// time.
    pub fn parse(&self, file: &SourceFile, file_hash: &str) -> (r: Result<Draft, ParserError>)
        ensures
            failure_of(r) == litchi_failure(*file),
            r matches Ok(d) ==> is_litchi_draft(d, *file, file_hash@),
    {
        let header = find_filled(&file.lines, 0);
        if header >= file.lines.len() {
            return Err(ParserError::Parse("Empty CSV file".to_owned()));
        }
        assert(texts(file.lines@)[header as int] == file.lines@[header as int]@);
        let headers = split_header(file.lines[header].as_str());
        let columns = ColumnMap::new(&headers);
        let rows = read_rows(&file.lines, header + 1, headers.len());
        let raw = self.read_points(&columns, &rows);
        let moved = self.normalize_times(raw);
        let ghost unsorted = moved@;
        let points = order_by_time(moved);
        if points.len() == 0 {
            return Err(ParserError::NoTelemetryData);
        }
        proof {
            lemma_positioned_upto_len(columns@, row_texts(rows@), rows@.len() as int);
        }
        let first_row = &rows[0];
        let last_row = &rows[rows.len() - 1];
        let stats = self.calculate_stats(&points, &columns, first_row, last_row);
        let metadata = self.extract_metadata(file, file_hash, &columns, first_row, last_row, &points);
        let draft = Draft {
            format: LogFormat::LitchiCsv,
            metadata,
            stats,
            points,
            imported_tags: Vec::new(),
            manual_tags: Vec::new(),
            notes: None,
        };
        proof {
            assert(point_views(unsorted) == litchi_points(columns@, row_texts(rows@)));
            assert(row_texts(rows@)[0] == texts(rows@[0]@));
            assert(row_texts(rows@).last() == texts(rows@[rows@.len() - 1]@));
        }
        Ok(draft)
    }
}

} // verus!
