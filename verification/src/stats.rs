//! Statistics of one flight.
//!
//! Every statistic is a fold over the values that are there: an absent
//! value is passed over, never counted as zero. Distances over ground are
//! measured outside (they need trigonometry) and handed in as plain
//! lengths, in the order that [`positions_of_points`] and its relatives
//! fix.

use vstd::prelude::*;
use crate::frames::clamp_i64;
use crate::models::{FlightStats, TelemetryPoint, TelemetryRecord};

verus! {

/// A speed at or below this, a tenth of a metre per second, counts as
/// standing still and stays out of the average.
pub const IDLE_SPEED: i64 = 100;

/// A thousandth of a degree over ten: below it a stored coordinate counts
/// as zero.
pub const STORED_ORIGIN_EPSILON: i64 = 1000;

// ---------------------------------------------------------------------------
// Folds over optional values
// ---------------------------------------------------------------------------

/// The largest of the first `n` values that are there.
pub open spec fn max_present_upto(values: Seq<Option<i64>>, n: int) -> Option<i64>
    decreases n,
{
    if n <= 0 {
        None
    } else {
        let before = max_present_upto(values, n - 1);
        match (before, values[n - 1]) {
            (Some(a), Some(b)) => Some(if b > a { b } else { a }),
            (Some(a), None) => Some(a),
            (None, x) => x,
        }
    }
}

/// The largest of the values that are there.
pub open spec fn max_present(values: Seq<Option<i64>>) -> Option<i64> {
    max_present_upto(values, values.len() as int)
}

/// The smallest of the first `n` values that are there.
pub open spec fn min_present_upto(values: Seq<Option<i64>>, n: int) -> Option<i64>
    decreases n,
{
    if n <= 0 {
        None
    } else {
        let before = min_present_upto(values, n - 1);
        match (before, values[n - 1]) {
            (Some(a), Some(b)) => Some(if b < a { b } else { a }),
            (Some(a), None) => Some(a),
            (None, x) => x,
        }
    }
}

/// The smallest of the values that are there.
pub open spec fn min_present(values: Seq<Option<i64>>) -> Option<i64> {
    min_present_upto(values, values.len() as int)
}

/// The first of the first `n` values that is there.
pub open spec fn first_present_upto(values: Seq<Option<i64>>, n: int) -> Option<i64>
    decreases n,
{
    if n <= 0 {
        None
    } else {
        match first_present_upto(values, n - 1) {
            Some(a) => Some(a),
            None => values[n - 1],
        }
    }
}

/// The first value that is there.
pub open spec fn first_present(values: Seq<Option<i64>>) -> Option<i64> {
    first_present_upto(values, values.len() as int)
}

/// The last of the first `n` values that is there.
pub open spec fn last_present_upto(values: Seq<Option<i64>>, n: int) -> Option<i64>
    decreases n,
{
    if n <= 0 {
        None
    } else {
        match values[n - 1] {
            Some(a) => Some(a),
            None => last_present_upto(values, n - 1),
        }
    }
}

/// The last value that is there.
pub open spec fn last_present(values: Seq<Option<i64>>) -> Option<i64> {
    last_present_upto(values, values.len() as int)
}

/// True when the value is there and above `threshold`.
pub open spec fn is_above(value: Option<i64>, threshold: i64) -> bool {
    value is Some && value->0 > threshold
}

/// The sum of those of the first `n` values that are above `threshold`.
pub open spec fn sum_above_upto(values: Seq<Option<i64>>, threshold: i64, n: int) -> int
    decreases n,
{
    if n <= 0 {
        0
    } else {
        sum_above_upto(values, threshold, n - 1) + if is_above(values[n - 1], threshold) {
            values[n - 1]->0 as int
        } else {
            0
        }
    }
}

/// How many of the first `n` values are above `threshold`.
pub open spec fn count_above_upto(values: Seq<Option<i64>>, threshold: i64, n: int) -> int
    decreases n,
{
    if n <= 0 {
        0
    } else {
        count_above_upto(values, threshold, n - 1) + if is_above(values[n - 1], threshold) {
            1int
        } else {
            0int
        }
    }
}

/// The mean of the values that are above `threshold`, cut off toward zero;
/// zero where there is none.
pub open spec fn mean_above(values: Seq<Option<i64>>, threshold: i64) -> int {
    let n = values.len() as int;
    if count_above_upto(values, threshold, n) == 0 {
        0
    } else {
        sum_above_upto(values, threshold, n) / count_above_upto(values, threshold, n)
    }
}

/// The sum of the first `n` lengths.
pub open spec fn sum_upto(lengths: Seq<i64>, n: int) -> int
    decreases n,
{
    if n <= 0 {
        0
    } else {
        sum_upto(lengths, n - 1) + lengths[n - 1]
    }
}

/// The sum of the lengths, held within the range of `i64`.
pub open spec fn total_length(lengths: Seq<i64>) -> i64 {
    clamp_i64(sum_upto(lengths, lengths.len() as int))
}

/// The largest of the values that are there.
pub fn largest(values: &Vec<Option<i64>>) -> (r: Option<i64>)
    ensures
        r == max_present(values@),
        r is Some ==> values@.contains(r),
{
    let mut best: Option<i64> = None;
    let mut i: usize = 0;
    while i < values.len()
        invariant
            i <= values.len(),
            best == max_present_upto(values@, i as int),
            best is Some ==> values@.contains(best),
        decreases values.len() - i,
    {
        match (best, values[i]) {
            (Some(a), Some(b)) => {
                if b > a {
                    best = Some(b);
                }
            },
            (None, Some(b)) => {
                best = Some(b);
            },
            _ => {},
        }
        i += 1;
    }
    best
}

/// The smallest of the values that are there.
pub fn smallest(values: &Vec<Option<i64>>) -> (r: Option<i64>)
    ensures
        r == min_present(values@),
        r is Some ==> values@.contains(r),
{
    let mut best: Option<i64> = None;
    let mut i: usize = 0;
    while i < values.len()
        invariant
            i <= values.len(),
            best == min_present_upto(values@, i as int),
            best is Some ==> values@.contains(best),
        decreases values.len() - i,
    {
        match (best, values[i]) {
            (Some(a), Some(b)) => {
                if b < a {
                    best = Some(b);
                }
            },
            (None, Some(b)) => {
                best = Some(b);
            },
            _ => {},
        }
        i += 1;
    }
    best
}

/// The first value that is there.
pub fn first_of(values: &Vec<Option<i64>>) -> (r: Option<i64>)
    ensures
        r == first_present(values@),
        r is Some ==> values@.contains(r),
{
    let mut found: Option<i64> = None;
    let mut i: usize = 0;
    while i < values.len()
        invariant
            i <= values.len(),
            found == first_present_upto(values@, i as int),
            found is Some ==> values@.contains(found),
        decreases values.len() - i,
    {
        if found.is_none() {
            found = values[i];
        }
        i += 1;
    }
    found
}

/// The last value that is there.
pub fn last_of(values: &Vec<Option<i64>>) -> (r: Option<i64>)
    ensures
        r == last_present(values@),
        r is Some ==> values@.contains(r),
{
    let mut found: Option<i64> = None;
    let mut i: usize = 0;
    while i < values.len()
        invariant
            i <= values.len(),
            found == last_present_upto(values@, i as int),
            found is Some ==> values@.contains(found),
        decreases values.len() - i,
    {
        if values[i].is_some() {
            found = values[i];
        }
        i += 1;
    }
    found
}

/// No more values are counted than are looked at, and their sum is no less than
/// their number and no more than that many times the most an `i64` holds.
pub proof fn lemma_sum_above_bounds(values: Seq<Option<i64>>, threshold: i64, n: int)
    requires
        0 <= n <= values.len(),
        threshold >= 0,
    ensures
        0 <= count_above_upto(values, threshold, n) <= n,
        count_above_upto(values, threshold, n) <= sum_above_upto(values, threshold, n),
        sum_above_upto(values, threshold, n) <= count_above_upto(values, threshold, n)
            * 0x7fff_ffff_ffff_ffff,
    decreases n,
{
    if n > 0 {
        lemma_sum_above_bounds(values, threshold, n - 1);
        let c = count_above_upto(values, threshold, n - 1);
        assert((c + 1) * 0x7fff_ffff_ffff_ffff == c * 0x7fff_ffff_ffff_ffff + 0x7fff_ffff_ffff_ffff)
            by (nonlinear_arith);
    }
}

/// The mean of the values that are above `threshold`, cut off toward zero;
/// zero where there is none.
pub fn mean_of_above(values: &Vec<Option<i64>>, threshold: i64) -> (r: i64)
    requires
        threshold >= 0,
    ensures
        r == mean_above(values@, threshold),
{
    let mut sum: u128 = 0;
    let mut count: u128 = 0;
    let mut i: usize = 0;
    while i < values.len()
        invariant
            i <= values.len(),
            threshold >= 0,
            sum == sum_above_upto(values@, threshold, i as int),
            count == count_above_upto(values@, threshold, i as int),
        decreases values.len() - i,
    {
        proof {
            lemma_sum_above_bounds(values@, threshold, i as int);
            assert(count * 0x7fff_ffff_ffff_ffff <= 0xffff_ffff_ffff_ffff * 0x7fff_ffff_ffff_ffff)
                by (nonlinear_arith)
                requires
                    0 <= count <= 0xffff_ffff_ffff_ffff,
            ;
        }
        match values[i] {
            Some(x) => {
                if x > threshold {
                    sum = sum + (x as u128);
                    count = count + 1;
                }
            },
            None => {},
        }
        i += 1;
    }
    if count == 0 {
        0
    } else {
        proof {
            lemma_sum_above_bounds(values@, threshold, values@.len() as int);
            assert(sum / count <= 0x7fff_ffff_ffff_ffff) by (nonlinear_arith)
                requires
                    sum <= count * 0x7fff_ffff_ffff_ffff,
                    count > 0,
            ;
        }
        (sum / count) as i64
    }
}

/// A sum of lengths stays within their number times the range of `i64`.
pub proof fn lemma_sum_upto_bounds(lengths: Seq<i64>, n: int)
    requires
        0 <= n <= lengths.len(),
    ensures
        n * (-0x8000_0000_0000_0000) <= sum_upto(lengths, n) <= n * 0x7fff_ffff_ffff_ffff,
    decreases n,
{
    if n > 0 {
        lemma_sum_upto_bounds(lengths, n - 1);
        assert(n * 0x7fff_ffff_ffff_ffff == (n - 1) * 0x7fff_ffff_ffff_ffff + 0x7fff_ffff_ffff_ffff)
            by (nonlinear_arith);
        assert(n * (-0x8000_0000_0000_0000) == (n - 1) * (-0x8000_0000_0000_0000)
            - 0x8000_0000_0000_0000) by (nonlinear_arith);
    }
}

/// The sum of the lengths, held within the range of `i64`.
pub fn total_of(lengths: &Vec<i64>) -> (r: i64)
    ensures
        r == total_length(lengths@),
{
    let mut sum: i128 = 0;
    let mut i: usize = 0;
    while i < lengths.len()
        invariant
            i <= lengths.len(),
            sum == sum_upto(lengths@, i as int),
        decreases lengths.len() - i,
    {
        proof {
            lemma_sum_upto_bounds(lengths@, i as int);
            assert(i * 0x7fff_ffff_ffff_ffff <= 0xffff_ffff_ffff_ffff * 0x7fff_ffff_ffff_ffff)
                by (nonlinear_arith)
                requires
                    0 <= i <= 0xffff_ffff_ffff_ffff,
            ;
            assert(i * (-0x8000_0000_0000_0000) >= 0xffff_ffff_ffff_ffff * (
            -0x8000_0000_0000_0000)) by (nonlinear_arith)
                requires
                    0 <= i <= 0xffff_ffff_ffff_ffff,
            ;
        }
        sum = sum + (lengths[i] as i128);
        i += 1;
    }
    if sum < i64::MIN as i128 {
        i64::MIN
    } else if sum > i64::MAX as i128 {
        i64::MAX
    } else {
        sum as i64
    }
}


/// The largest of the first `n` lengths, and no less than zero.
pub open spec fn max_length_upto(lengths: Seq<i64>, n: int) -> i64
    decreases n,
{
    if n <= 0 {
        0
    } else {
        let before = max_length_upto(lengths, n - 1);
        if lengths[n - 1] > before {
            lengths[n - 1]
        } else {
            before
        }
    }
}

/// The largest of the lengths, and no less than zero.
pub open spec fn max_length(lengths: Seq<i64>) -> i64 {
    max_length_upto(lengths, lengths.len() as int)
}

/// The largest of the lengths, and no less than zero.
pub fn longest(lengths: &Vec<i64>) -> (r: i64)
    ensures
        r == max_length(lengths@),
        r >= 0,
{
    let mut best: i64 = 0;
    let mut i: usize = 0;
    while i < lengths.len()
        invariant
            i <= lengths.len(),
            best == max_length_upto(lengths@, i as int),
            best >= 0,
        decreases lengths.len() - i,
    {
        if lengths[i] > best {
            best = lengths[i];
        }
        i += 1;
    }
    best
}

// ---------------------------------------------------------------------------
// Quantities of points and records
// ---------------------------------------------------------------------------

/// A quantity that the statistics read.
#[derive(Debug, Clone, Copy, PartialEq, Eq, Structural)]
pub enum Quantity {
    Speed,
    Altitude,
    /// The height above take-off, or the altitude where that is absent.
    HeightOrAltitude,
    BatteryPercent,
    BatteryTemp,
}

/// A number of 32 bits as one of 64.
pub open spec fn widen(x: Option<i32>) -> Option<i64> {
    match x {
        Some(v) => Some(v as i64),
        None => None,
    }
}

/// The first value where it is there, else the second.
pub open spec fn or_else(a: Option<i64>, b: Option<i64>) -> Option<i64> {
    match a {
        Some(v) => Some(v),
        None => b,
    }
}

/// What a point reports of a quantity.
pub open spec fn point_quantity(p: TelemetryPoint, q: Quantity) -> Option<i64> {
    match q {
        Quantity::Speed => p.speed,
        Quantity::Altitude => p.altitude,
        Quantity::HeightOrAltitude => or_else(p.height, p.altitude),
        Quantity::BatteryPercent => widen(p.battery_percent),
        Quantity::BatteryTemp => p.battery_temp,
    }
}

/// What a record reports of a quantity.
pub open spec fn record_quantity(r: TelemetryRecord, q: Quantity) -> Option<i64> {
    match q {
        Quantity::Speed => r.speed,
        Quantity::Altitude => r.altitude,
        Quantity::HeightOrAltitude => or_else(r.height, r.altitude),
        Quantity::BatteryPercent => widen(r.battery_percent),
        Quantity::BatteryTemp => r.battery_temp,
    }
}

/// One quantity of every point, in the points' order.
pub open spec fn points_column(points: Seq<TelemetryPoint>, q: Quantity) -> Seq<Option<i64>> {
    Seq::new(points.len(), |i: int| point_quantity(points[i], q))
}

/// One quantity of every record, in the records' order.
pub open spec fn records_column(records: Seq<TelemetryRecord>, q: Quantity) -> Seq<Option<i64>> {
    Seq::new(records.len(), |i: int| record_quantity(records[i], q))
}

fn pick(q: Quantity, speed: Option<i64>, altitude: Option<i64>, height: Option<i64>, battery: Option<
    i32,
>, temp: Option<i64>) -> (r: Option<i64>)
    ensures
        r == (match q {
            Quantity::Speed => speed,
            Quantity::Altitude => altitude,
            Quantity::HeightOrAltitude => or_else(height, altitude),
            Quantity::BatteryPercent => widen(battery),
            Quantity::BatteryTemp => temp,
        }),
{
    match q {
        Quantity::Speed => speed,
        Quantity::Altitude => altitude,
        Quantity::HeightOrAltitude => match height {
            Some(h) => Some(h),
            None => altitude,
        },
        Quantity::BatteryPercent => match battery {
            Some(b) => Some(b as i64),
            None => None,
        },
        Quantity::BatteryTemp => temp,
    }
}

/// One quantity of every point, in the points' order.
pub fn column_of_points(points: &Vec<TelemetryPoint>, q: Quantity) -> (column: Vec<Option<i64>>)
    ensures
        column@ == points_column(points@, q),
{
    let mut column: Vec<Option<i64>> = Vec::new();
    let mut i: usize = 0;
    while i < points.len()
        invariant
            i <= points.len(),
            column@ =~= Seq::new(i as nat, |k: int| point_quantity(points@[k], q)),
        decreases points.len() - i,
    {
        let p = &points[i];
        column.push(pick(q, p.speed, p.altitude, p.height, p.battery_percent, p.battery_temp));
        i += 1;
    }
    column
}

/// One quantity of every record, in the records' order.
pub fn column_of_records(records: &Vec<TelemetryRecord>, q: Quantity) -> (column: Vec<Option<i64>>)
    ensures
        column@ == records_column(records@, q),
{
    let mut column: Vec<Option<i64>> = Vec::new();
    let mut i: usize = 0;
    while i < records.len()
        invariant
            i <= records.len(),
            column@ =~= Seq::new(i as nat, |k: int| record_quantity(records@[k], q)),
        decreases records.len() - i,
    {
        let r = &records[i];
        column.push(pick(q, r.speed, r.altitude, r.height, r.battery_percent, r.battery_temp));
        i += 1;
    }
    column
}

/// A charge in percent out of a column of charges.
pub open spec fn narrow(x: Option<i64>) -> Option<i32> {
    match x {
        Some(v) => Some(v as i32),
        None => None,
    }
}

fn narrow_charge(x: Option<i64>) -> (r: Option<i32>)
    requires
        x matches Some(v) ==> i32::MIN <= v <= i32::MAX,
    ensures
        r == narrow(x),
        widen(r) == x,
{
    match x {
        Some(v) => Some(v as i32),
        None => None,
    }
}

// ---------------------------------------------------------------------------
// Positions
// ---------------------------------------------------------------------------

/// A position on the ground.
#[derive(Debug, Clone, Copy, PartialEq, Eq, Structural)]
pub struct Position {
    pub latitude: i64,
    pub longitude: i64,
}

/// The position of a latitude and a longitude, where both are there.
pub open spec fn position_of(latitude: Option<i64>, longitude: Option<i64>) -> Option<Position> {
    if latitude is Some && longitude is Some {
        Some(Position { latitude: latitude->0, longitude: longitude->0 })
    } else {
        None
    }
}

/// True when both coordinates are within `epsilon` of zero.
pub open spec fn near_origin(p: Position, epsilon: i64) -> bool {
    -epsilon < p.latitude < epsilon && -epsilon < p.longitude < epsilon
}

/// True when one coordinate at least is further than `epsilon` from zero.
pub open spec fn off_origin(p: Position, epsilon: i64) -> bool {
    p.latitude > epsilon || p.latitude < -epsilon || p.longitude > epsilon || p.longitude
        < -epsilon
}

/// The positions of the first `n` points, in the points' order.
pub open spec fn point_positions_upto(points: Seq<TelemetryPoint>, n: int) -> Seq<Position>
    decreases n,
{
    if n <= 0 {
        Seq::empty()
    } else {
        let before = point_positions_upto(points, n - 1);
        match position_of(points[n - 1].latitude, points[n - 1].longitude) {
            Some(p) => before.push(p),
            None => before,
        }
    }
}

/// The positions of the points that have one, in the points' order.
pub open spec fn point_positions(points: Seq<TelemetryPoint>) -> Seq<Position> {
    point_positions_upto(points, points.len() as int)
}

/// The positions of the first `n` records, in the records' order.
pub open spec fn record_positions_upto(records: Seq<TelemetryRecord>, n: int) -> Seq<Position>
    decreases n,
{
    if n <= 0 {
        Seq::empty()
    } else {
        let before = record_positions_upto(records, n - 1);
        match position_of(records[n - 1].latitude, records[n - 1].longitude) {
            Some(p) => before.push(p),
            None => before,
        }
    }
}

/// The positions of the records that have one, in the records' order.
pub open spec fn record_positions(records: Seq<TelemetryRecord>) -> Seq<Position> {
    record_positions_upto(records, records.len() as int)
}

/// Those of the first `n` positions that are not near the origin.
pub open spec fn off_origin_upto(positions: Seq<Position>, epsilon: i64, n: int) -> Seq<Position>
    decreases n,
{
    if n <= 0 {
        Seq::empty()
    } else {
        let before = off_origin_upto(positions, epsilon, n - 1);
        if near_origin(positions[n - 1], epsilon) {
            before
        } else {
            before.push(positions[n - 1])
        }
    }
}

/// The route that stored records describe: their positions, without those
/// near the origin.
pub open spec fn record_route(records: Seq<TelemetryRecord>) -> Seq<Position> {
    let all = record_positions(records);
    off_origin_upto(all, STORED_ORIGIN_EPSILON, all.len() as int)
}

/// The first of the first `n` positions that is off the origin.
pub open spec fn first_off_origin_upto(positions: Seq<Position>, epsilon: i64, n: int) -> Option<
    Position,
>
    decreases n,
{
    if n <= 0 {
        None
    } else {
        match first_off_origin_upto(positions, epsilon, n - 1) {
            Some(p) => Some(p),
            None => if off_origin(positions[n - 1], epsilon) {
                Some(positions[n - 1])
            } else {
                None
            },
        }
    }
}

/// The positions of the points that have one, in the points' order. The
/// legs of the flight run from each of them to the next.
pub fn positions_of_points(points: &Vec<TelemetryPoint>) -> (r: Vec<Position>)
    ensures
        r@ == point_positions(points@),
{
    let mut r: Vec<Position> = Vec::new();
    let mut i: usize = 0;
    while i < points.len()
        invariant
            i <= points.len(),
            r@ == point_positions_upto(points@, i as int),
        decreases points.len() - i,
    {
        match (points[i].latitude, points[i].longitude) {
            (Some(latitude), Some(longitude)) => {
                r.push(Position { latitude, longitude });
            },
            _ => {},
        }
        i += 1;
    }
    r
}

/// The positions of the records that have one, in the records' order.
pub fn positions_of_records(records: &Vec<TelemetryRecord>) -> (r: Vec<Position>)
    ensures
        r@ == record_positions(records@),
{
    let mut r: Vec<Position> = Vec::new();
    let mut i: usize = 0;
    while i < records.len()
        invariant
            i <= records.len(),
            r@ == record_positions_upto(records@, i as int),
        decreases records.len() - i,
    {
        match (records[i].latitude, records[i].longitude) {
            (Some(latitude), Some(longitude)) => {
                r.push(Position { latitude, longitude });
            },
            _ => {},
        }
        i += 1;
    }
    r
}

/// Decides whether both coordinates are within `epsilon` of zero.
pub fn is_near_origin(p: Position, epsilon: i64) -> (r: bool)
    requires
        epsilon > i64::MIN,
    ensures
        r == near_origin(p, epsilon),
{
    -epsilon < p.latitude && p.latitude < epsilon && -epsilon < p.longitude && p.longitude
        < epsilon
}

/// The route that stored records describe: their positions, without those
/// near the origin. The legs of the flight run from each position of the
/// route to the next.
pub fn route_of_records(records: &Vec<TelemetryRecord>) -> (r: Vec<Position>)
    ensures
        r@ == record_route(records@),
{
    let all = positions_of_records(records);
    let mut r: Vec<Position> = Vec::new();
    let mut i: usize = 0;
    while i < all.len()
        invariant
            i <= all.len(),
            r@ == off_origin_upto(all@, STORED_ORIGIN_EPSILON, i as int),
        decreases all.len() - i,
    {
        if !is_near_origin(all[i], STORED_ORIGIN_EPSILON) {
            r.push(all[i]);
        }
        i += 1;
    }
    r
}

/// The first position that is off the origin by more than `epsilon`.
pub fn first_off_origin(positions: &Vec<Position>, epsilon: i64) -> (r: Option<Position>)
    requires
        epsilon > i64::MIN,
    ensures
        r == first_off_origin_upto(positions@, epsilon, positions@.len() as int),
{
    let mut found: Option<Position> = None;
    let mut i: usize = 0;
    while i < positions.len()
        invariant
            i <= positions.len(),
            epsilon > i64::MIN,
            found == first_off_origin_upto(positions@, epsilon, i as int),
        decreases positions.len() - i,
    {
        if found.is_none() {
            let p = positions[i];
            if p.latitude > epsilon || p.latitude < -epsilon || p.longitude > epsilon
                || p.longitude < -epsilon {
                found = Some(p);
            }
        }
        i += 1;
    }
    found
}

// ---------------------------------------------------------------------------
// The statistics of a flight
// ---------------------------------------------------------------------------

/// A value, zero where there is none.
pub open spec fn value_or_zero(x: Option<i64>) -> i64 {
    match x {
        Some(v) => v,
        None => 0,
    }
}

/// A value above zero, zero where there is none.
pub open spec fn positive_or_zero(x: Option<i64>) -> i64 {
    match x {
        Some(v) => if v > 0 {
            v
        } else {
            0
        },
        None => 0,
    }
}

/// A position as a home location: the longitude, then the latitude.
pub open spec fn home_of(p: Option<Position>) -> Option<(i64, i64)> {
    match p {
        Some(p) => Some((p.longitude, p.latitude)),
        None => None,
    }
}

/// The statistics of points fresh from a parser. `legs[i]` is the distance
/// over ground from position `i` of [`point_positions`] to position
/// `i + 1`, and `from_home[i]` the distance from the first position to
/// position `i`.
pub open spec fn stats_of_points(
    points: Seq<TelemetryPoint>,
    legs: Seq<i64>,
    from_home: Seq<i64>,
) -> FlightStats {
    let positions = point_positions(points);
    let charge = points_column(points, Quantity::BatteryPercent);
    FlightStats {
        duration_ms: if points.len() > 0 {
            points.last().timestamp_ms
        } else {
            0
        },
        total_distance: total_length(legs),
        max_altitude: value_or_zero(max_present(points_column(points, Quantity::HeightOrAltitude))),
        max_speed: value_or_zero(max_present(points_column(points, Quantity::Speed))),
        avg_speed: mean_above(points_column(points, Quantity::Speed), IDLE_SPEED) as i64,
        min_battery: value_or_zero(min_present(charge)) as i32,
        home_location: if positions.len() > 0 {
            Some((positions[0].longitude, positions[0].latitude))
        } else {
            None
        },
        max_distance_from_home: if positions.len() > 0 {
            max_length(from_home)
        } else {
            0
        },
        start_battery_percent: narrow(first_present(charge)),
        end_battery_percent: narrow(last_present(charge)),
        start_battery_temp: first_present(points_column(points, Quantity::BatteryTemp)),
    }
}

/// The statistics of records out of the store. `legs[i]` is the distance
/// over ground from position `i` of [`record_route`] to position `i + 1`,
/// and `from_home[i]` the distance from the home position to position `i`
/// of [`record_positions`]. The home position is the first position that
/// is off the origin.
pub open spec fn stats_of_records(
    records: Seq<TelemetryRecord>,
    legs: Seq<i64>,
    from_home: Seq<i64>,
) -> FlightStats {
    let positions = record_positions(records);
    let home = first_off_origin_upto(positions, STORED_ORIGIN_EPSILON, positions.len() as int);
    let charge = records_column(records, Quantity::BatteryPercent);
    FlightStats {
        duration_ms: if records.len() > 0 {
            clamp_i64(records.last().timestamp_ms - records[0].timestamp_ms)
        } else {
            0
        },
        total_distance: total_length(legs),
        max_altitude: positive_or_zero(
            max_present(records_column(records, Quantity::HeightOrAltitude)),
        ),
        max_speed: positive_or_zero(max_present(records_column(records, Quantity::Speed))),
        avg_speed: mean_above(records_column(records, Quantity::Speed), IDLE_SPEED) as i64,
        min_battery: value_or_zero(min_present(charge)) as i32,
        home_location: home_of(home),
        max_distance_from_home: if home is Some {
            max_length(from_home)
        } else {
            0
        },
        start_battery_percent: narrow(first_present(charge)),
        end_battery_percent: narrow(last_present(charge)),
        start_battery_temp: first_present(records_column(records, Quantity::BatteryTemp)),
    }
}

fn or_zero(x: Option<i64>) -> (r: i64)
    ensures
        r == value_or_zero(x),
{
    match x {
        Some(v) => v,
        None => 0,
    }
}

fn positive_or(x: Option<i64>) -> (r: i64)
    ensures
        r == positive_or_zero(x),
{
    match x {
        Some(v) => if v > 0 {
            v
        } else {
            0
        },
        None => 0,
    }
}

/// Computes the statistics of points fresh from a parser.
pub fn stats_from_points(points: &Vec<TelemetryPoint>, legs: &Vec<i64>, from_home: &Vec<i64>) -> (r:
    FlightStats)
    ensures
        r == stats_of_points(points@, legs@, from_home@),
{
    let positions = positions_of_points(points);
    let speed = column_of_points(points, Quantity::Speed);
    let height = column_of_points(points, Quantity::HeightOrAltitude);
    let charge = column_of_points(points, Quantity::BatteryPercent);
    let temp = column_of_points(points, Quantity::BatteryTemp);
    let lowest = smallest(&charge);
    let first_charge = first_of(&charge);
    let last_charge = last_of(&charge);
    proof {
        assert forall|x: Option<i64>| charge@.contains(x) && x is Some implies i32::MIN <= x->0
            <= i32::MAX by {
            let k = choose|k: int| 0 <= k < charge@.len() && charge@[k] == x;
            assert(charge@[k] == widen(points@[k].battery_percent));
        }
    }
    FlightStats {
        duration_ms: if points.len() > 0 {
            points[points.len() - 1].timestamp_ms
        } else {
            0
        },
        total_distance: total_of(legs),
        max_altitude: or_zero(largest(&height)),
        max_speed: or_zero(largest(&speed)),
        avg_speed: mean_of_above(&speed, IDLE_SPEED),
        min_battery: or_zero(lowest) as i32,
        home_location: if positions.len() > 0 {
            Some((positions[0].longitude, positions[0].latitude))
        } else {
            None
        },
        max_distance_from_home: if positions.len() > 0 {
            longest(from_home)
        } else {
            0
        },
        start_battery_percent: narrow_charge(first_charge),
        end_battery_percent: narrow_charge(last_charge),
        start_battery_temp: first_of(&temp),
    }
}

/// Computes the statistics of records out of the store.
pub fn stats_from_records(records: &Vec<TelemetryRecord>, legs: &Vec<i64>, from_home: &Vec<i64>) -> (r:
    FlightStats)
    ensures
        r == stats_of_records(records@, legs@, from_home@),
{
    let positions = positions_of_records(records);
    let home = first_off_origin(&positions, STORED_ORIGIN_EPSILON);
    let speed = column_of_records(records, Quantity::Speed);
    let height = column_of_records(records, Quantity::HeightOrAltitude);
    let charge = column_of_records(records, Quantity::BatteryPercent);
    let temp = column_of_records(records, Quantity::BatteryTemp);
    let lowest = smallest(&charge);
    let first_charge = first_of(&charge);
    let last_charge = last_of(&charge);
    proof {
        assert forall|x: Option<i64>| charge@.contains(x) && x is Some implies i32::MIN <= x->0
            <= i32::MAX by {
            let k = choose|k: int| 0 <= k < charge@.len() && charge@[k] == x;
            assert(charge@[k] == widen(records@[k].battery_percent));
        }
    }
    let duration: i64 = if records.len() > 0 {
        let diff: i128 = records[records.len() - 1].timestamp_ms as i128
            - records[0].timestamp_ms as i128;
        if diff < i64::MIN as i128 {
            i64::MIN
        } else if diff > i64::MAX as i128 {
            i64::MAX
        } else {
            diff as i64
        }
    } else {
        0
    };
    FlightStats {
        duration_ms: duration,
        total_distance: total_of(legs),
        max_altitude: positive_or(largest(&height)),
        max_speed: positive_or(largest(&speed)),
        avg_speed: mean_of_above(&speed, IDLE_SPEED),
        min_battery: or_zero(lowest) as i32,
        home_location: match home {
            Some(p) => Some((p.longitude, p.latitude)),
            None => None,
        },
        max_distance_from_home: if home.is_some() {
            longest(from_home)
        } else {
            0
        },
        start_battery_percent: narrow_charge(first_charge),
        end_battery_percent: narrow_charge(last_charge),
        start_battery_temp: first_of(&temp),
    }
}

// ---------------------------------------------------------------------------
// Photos and recordings
// ---------------------------------------------------------------------------

/// What a camera does: take a photo, or record video.
#[derive(Debug, Clone, Copy, PartialEq, Eq, Structural)]
pub enum Camera {
    Photo,
    Video,
}

/// True when the point says that the camera is at it.
pub open spec fn is_busy(point: TelemetryPoint, camera: Camera) -> bool {
    match camera {
        Camera::Photo => point.is_photo == Some(true),
        Camera::Video => point.is_video == Some(true),
    }
}

/// The number of times that the camera set in among the first `n` points:
/// the points at which it is busy and that follow no point at which it is.
pub open spec fn shots_upto(points: Seq<TelemetryPoint>, camera: Camera, n: int) -> int
    decreases n,
{
    if n <= 0 {
        0
    } else {
        shots_upto(points, camera, n - 1) + if is_busy(points[n - 1], camera) && (n == 1
            || !is_busy(points[n - 2], camera)) {
            1int
        } else {
            0int
        }
    }
}

/// The number of times that the camera set in, as the metadata state it:
/// no more than an `i32` holds.
pub open spec fn shot_count(points: Seq<TelemetryPoint>, camera: Camera) -> i32 {
    let shots = shots_upto(points, camera, points.len() as int);
    if shots > i32::MAX {
        i32::MAX
    } else {
        shots as i32
    }
}

/// There are no more shots than points.
pub proof fn lemma_shots_bounds(points: Seq<TelemetryPoint>, camera: Camera, n: int)
    requires
        0 <= n,
    ensures
        0 <= shots_upto(points, camera, n) <= n,
    decreases n,
{
    if n > 0 {
        lemma_shots_bounds(points, camera, n - 1);
    }
}

/// Decides whether the point says that the camera is at it.
pub fn check_busy(point: &TelemetryPoint, camera: Camera) -> (r: bool)
    ensures
        r == is_busy(*point, camera),
{
    let flag = match camera {
        Camera::Photo => point.is_photo,
        Camera::Video => point.is_video,
    };
    match flag {
        Some(on) => on,
        None => false,
    }
}

/// Counts the times that the camera set in.
pub fn count_shots(points: &Vec<TelemetryPoint>, camera: Camera) -> (r: i32)
    ensures
        r == shot_count(points@, camera),
{
    let mut shots: usize = 0;
    let mut busy = false;
    let mut i: usize = 0;
    while i < points.len()
        invariant
            i <= points.len(),
            shots == shots_upto(points@, camera, i as int),
            shots <= i,
            busy == (i > 0 && is_busy(points@[i - 1], camera)),
        decreases points.len() - i,
    {
        let now = check_busy(&points[i], camera);
        if now && !busy {
            shots += 1;
        }
        busy = now;
        i += 1;
    }
    if shots > 0x7fff_ffff {
        0x7fff_ffff
    } else {
        shots as i32
    }
}

} // verus!
