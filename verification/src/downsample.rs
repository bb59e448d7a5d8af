//! Serving the telemetry of a flight within a bound.
//!
//! Up to a limit of points the stored records are served as they are.
//! Beyond it the records are gathered in buckets of equal length in time
//! and each bucket is served as one record: its measurements are the means
//! of the measurements that are there, its counters, its flight mode and
//! its cell voltages are those of its first record, and its camera states
//! are true where any record of the bucket has them true.

use vstd::prelude::*;
use vstd::arithmetic::div_mod::{
    lemma_div_is_ordered, lemma_fundamental_div_mod, lemma_fundamental_div_mod_converse,
    lemma_mod_bound,
};
use crate::frames::clamp_i64;
use crate::models::TelemetryRecord;
use crate::ordering::is_ordered;
use crate::series::{cells_of, copy_cells};

verus! {

/// The number of points up to which records are served as they are, where
/// the caller names none.
pub const DEFAULT_MAX_POINTS: usize = 5000;

/// The shortest bucket: one second.
pub const MIN_BUCKET_MS: i64 = 1000;

/// A measurement of a record.
#[derive(Debug, Clone, Copy, PartialEq, Eq, Structural)]
pub enum Measure {
    Latitude,
    Longitude,
    Altitude,
    Height,
    VpsHeight,
    Speed,
    VelocityX,
    VelocityY,
    VelocityZ,
    BatteryVoltage,
    BatteryTemp,
    Pitch,
    Roll,
    Yaw,
    RcAileron,
    RcElevator,
    RcThrottle,
    RcRudder,
}

/// The measurement `m` of the record `r`.
pub open spec fn measure_of(r: TelemetryRecord, m: Measure) -> Option<i64> {
    match m {
        Measure::Latitude => r.latitude,
        Measure::Longitude => r.longitude,
        Measure::Altitude => r.altitude,
        Measure::Height => r.height,
        Measure::VpsHeight => r.vps_height,
        Measure::Speed => r.speed,
        Measure::VelocityX => r.velocity_x,
        Measure::VelocityY => r.velocity_y,
        Measure::VelocityZ => r.velocity_z,
        Measure::BatteryVoltage => r.battery_voltage,
        Measure::BatteryTemp => r.battery_temp,
        Measure::Pitch => r.pitch,
        Measure::Roll => r.roll,
        Measure::Yaw => r.yaw,
        Measure::RcAileron => r.rc_aileron,
        Measure::RcElevator => r.rc_elevator,
        Measure::RcThrottle => r.rc_throttle,
        Measure::RcRudder => r.rc_rudder,
    }
}

/// The measurement `m` of the record `r`.
pub fn get_measure(r: &TelemetryRecord, m: Measure) -> (x: Option<i64>)
    ensures
        x == measure_of(*r, m),
{
    match m {
        Measure::Latitude => r.latitude,
        Measure::Longitude => r.longitude,
        Measure::Altitude => r.altitude,
        Measure::Height => r.height,
        Measure::VpsHeight => r.vps_height,
        Measure::Speed => r.speed,
        Measure::VelocityX => r.velocity_x,
        Measure::VelocityY => r.velocity_y,
        Measure::VelocityZ => r.velocity_z,
        Measure::BatteryVoltage => r.battery_voltage,
        Measure::BatteryTemp => r.battery_temp,
        Measure::Pitch => r.pitch,
        Measure::Roll => r.roll,
        Measure::Yaw => r.yaw,
        Measure::RcAileron => r.rc_aileron,
        Measure::RcElevator => r.rc_elevator,
        Measure::RcThrottle => r.rc_throttle,
        Measure::RcRudder => r.rc_rudder,
    }
}

/// The sum of the measurement over those of the records `from..to` that
/// have it.
pub open spec fn measure_sum(records: Seq<TelemetryRecord>, m: Measure, from: int, to: int) -> int
    decreases to - from,
{
    if to <= from {
        0
    } else {
        measure_sum(records, m, from, to - 1) + match measure_of(records[to - 1], m) {
            Some(x) => x as int,
            None => 0,
        }
    }
}

/// How many of the records `from..to` have the measurement.
pub open spec fn measure_count(records: Seq<TelemetryRecord>, m: Measure, from: int, to: int) -> int
    decreases to - from,
{
    if to <= from {
        0
    } else {
        measure_count(records, m, from, to - 1) + match measure_of(records[to - 1], m) {
            Some(x) => 1int,
            None => 0int,
        }
    }
}

/// A sum over a count, cut off toward zero.
pub open spec fn mean_toward_zero(sum: int, count: int) -> int {
    if sum >= 0 {
        sum / count
    } else {
        -((-sum) / count)
    }
}

/// The mean of the measurement over those of the records `from..to` that
/// have it; nothing where none has it.
pub open spec fn measure_mean(records: Seq<TelemetryRecord>, m: Measure, from: int, to: int) -> Option<
    i64,
> {
    if measure_count(records, m, from, to) == 0 {
        None
    } else {
        Some(
            mean_toward_zero(
                measure_sum(records, m, from, to),
                measure_count(records, m, from, to),
            ) as i64,
        )
    }
}

/// A camera state of a record.
#[derive(Debug, Clone, Copy, PartialEq, Eq, Structural)]
pub enum CameraState {
    Photo,
    Video,
}

/// What a record reports of a state of the camera.
pub open spec fn camera_state_of(r: TelemetryRecord, c: CameraState) -> Option<bool> {
    match c {
        CameraState::Photo => r.is_photo,
        CameraState::Video => r.is_video,
    }
}

/// True when one of the records `from..to` has the camera state true.
pub open spec fn any_true(records: Seq<TelemetryRecord>, c: CameraState, from: int, to: int) -> bool {
    exists|i: int| from <= i < to && camera_state_of(#[trigger] records[i], c) == Some(true)
}

/// True when one of the records `from..to` reports the camera state.
pub open spec fn any_reported(records: Seq<TelemetryRecord>, c: CameraState, from: int, to: int) -> bool {
    exists|i: int| from <= i < to && camera_state_of(#[trigger] records[i], c) is Some
}

/// The camera state of a bucket: true where any record has it true, false
/// where some record reports it and none has it true, nothing where none
/// reports it.
pub open spec fn camera_state_over(
    records: Seq<TelemetryRecord>,
    c: CameraState,
    from: int,
    to: int,
) -> Option<bool> {
    if any_true(records, c, from, to) {
        Some(true)
    } else if any_reported(records, c, from, to) {
        Some(false)
    } else {
        None
    }
}

/// The number of the bucket of length `size` that the time `t` falls in.
pub open spec fn bucket_index(t: i64, size: int) -> int {
    t as int / size
}

/// The time at which the bucket of `t` begins.
pub open spec fn bucket_time(t: i64, size: int) -> i64 {
    clamp_i64(bucket_index(t, size) * size)
}

/// True when `out` is the record that stands for the bucket made of the
/// records `from..to`.
pub open spec fn is_bucket_record(
    out: TelemetryRecord,
    records: Seq<TelemetryRecord>,
    from: int,
    to: int,
    size: int,
) -> bool {
    &&& out.timestamp_ms == bucket_time(records[from].timestamp_ms, size)
    &&& out.latitude == measure_mean(records, Measure::Latitude, from, to)
    &&& out.longitude == measure_mean(records, Measure::Longitude, from, to)
    &&& out.altitude == measure_mean(records, Measure::Altitude, from, to)
    &&& out.height == measure_mean(records, Measure::Height, from, to)
    &&& out.vps_height == measure_mean(records, Measure::VpsHeight, from, to)
    &&& out.speed == measure_mean(records, Measure::Speed, from, to)
    &&& out.velocity_x == measure_mean(records, Measure::VelocityX, from, to)
    &&& out.velocity_y == measure_mean(records, Measure::VelocityY, from, to)
    &&& out.velocity_z == measure_mean(records, Measure::VelocityZ, from, to)
    &&& out.battery_voltage == measure_mean(records, Measure::BatteryVoltage, from, to)
    &&& out.battery_temp == measure_mean(records, Measure::BatteryTemp, from, to)
    &&& out.pitch == measure_mean(records, Measure::Pitch, from, to)
    &&& out.roll == measure_mean(records, Measure::Roll, from, to)
    &&& out.yaw == measure_mean(records, Measure::Yaw, from, to)
    &&& out.rc_aileron == measure_mean(records, Measure::RcAileron, from, to)
    &&& out.rc_elevator == measure_mean(records, Measure::RcElevator, from, to)
    &&& out.rc_throttle == measure_mean(records, Measure::RcThrottle, from, to)
    &&& out.rc_rudder == measure_mean(records, Measure::RcRudder, from, to)
    &&& out.battery_percent == records[from].battery_percent
    &&& out.satellites == records[from].satellites
    &&& out.rc_signal == records[from].rc_signal
    &&& out.rc_uplink == records[from].rc_uplink
    &&& out.rc_downlink == records[from].rc_downlink
    &&& out.flight_mode == records[from].flight_mode
    &&& cells_of(out.cell_voltages) == cells_of(records[from].cell_voltages)
    &&& out.is_photo == camera_state_over(records, CameraState::Photo, from, to)
    &&& out.is_video == camera_state_over(records, CameraState::Video, from, to)
}

/// True when record `i` opens a bucket: it is the first record, or its
/// bucket is not that of the record before.
pub open spec fn opens_bucket(records: Seq<TelemetryRecord>, size: int, i: int) -> bool {
    i == 0 || bucket_index(records[i].timestamp_ms, size) != bucket_index(
        records[i - 1].timestamp_ms,
        size,
    )
}

/// The indices below `n` of the records that open a bucket, in rising order.
pub open spec fn bucket_starts(records: Seq<TelemetryRecord>, size: int, n: int) -> Seq<int>
    decreases n,
{
    if n <= 0 {
        Seq::empty()
    } else {
        let before = bucket_starts(records, size, n - 1);
        if opens_bucket(records, size, n - 1) {
            before.push(n - 1)
        } else {
            before
        }
    }
}

/// Where bucket `k` ends: where the next begins, or with the records.
pub open spec fn bucket_end(starts: Seq<int>, k: int, len: int) -> int {
    if k + 1 < starts.len() {
        starts[k + 1]
    } else {
        len
    }
}

/// True when `out` holds one record for each bucket of `records`, in order.
pub open spec fn is_downsampled(
    out: Seq<TelemetryRecord>,
    records: Seq<TelemetryRecord>,
    size: int,
) -> bool {
    let starts = bucket_starts(records, size, records.len() as int);
    &&& out.len() == starts.len()
    &&& forall|k: int|
        0 <= k < out.len() ==> is_bucket_record(
            #[trigger] out[k],
            records,
            starts[k],
            bucket_end(starts, k, records.len() as int),
            size,
        )
}

/// The length of a bucket: the time from the first record to the last over
/// the number of points asked for, a second at the least and no more than
/// an `i64` holds.
pub open spec fn bucket_size(records: Seq<TelemetryRecord>, max_points: int) -> int {
    let duration = records.last().timestamp_ms - records[0].timestamp_ms;
    if duration / max_points > MIN_BUCKET_MS {
        clamp_i64(duration / max_points) as int
    } else {
        MIN_BUCKET_MS as int
    }
}


// ---------------------------------------------------------------------------
// One bucket
// ---------------------------------------------------------------------------

/// The whole part of `t` over `size`, rounded down.
pub fn floor_div(t: i64, size: i64) -> (q: i64)
    requires
        size > 0,
    ensures
        q == bucket_index(t, size as int),
{
    if t >= 0 {
        t / size
    } else {
        let a: i128 = -(t as i128);
        let d: i128 = size as i128;
        let c: i128 = (a + d - 1) / d;
        proof {
            let ai = a as int;
            let di = d as int;
            let ci = c as int;
            let rem = (ai + di - 1) % di;
            lemma_fundamental_div_mod(ai + di - 1, di);
            assert(0 <= rem < di) by (nonlinear_arith)
                requires
                    rem == (ai + di - 1) % di,
                    di > 0,
            ;
            let r = di - 1 - rem;
            assert(t as int == (-ci) * di + r) by (nonlinear_arith)
                requires
                    ai + di - 1 == di * ci + rem,
                    r == di - 1 - rem,
                    t as int == -ai,
            ;
            lemma_fundamental_div_mod_converse(t as int, di, -ci, r);
            assert(0 <= ci <= ai) by (nonlinear_arith)
                requires
                    ai + di - 1 == di * ci + rem,
                    0 <= rem < di,
                    di >= 1,
                    ai >= 1,
            ;
        }
        (-c) as i64
    }
}

/// A run of records reports a measure no more often than it has records, and
/// the sum of what it reports stays within that many times the range of `i64`.
pub proof fn lemma_measure_bounds(records: Seq<TelemetryRecord>, m: Measure, from: int, to: int)
    requires
        0 <= from <= to <= records.len(),
    ensures
        0 <= measure_count(records, m, from, to) <= to - from,
        measure_count(records, m, from, to) * (-0x8000_0000_0000_0000) <= measure_sum(
            records,
            m,
            from,
            to,
        ) <= measure_count(records, m, from, to) * 0x7fff_ffff_ffff_ffff,
    decreases to - from,
{
    if to > from {
        lemma_measure_bounds(records, m, from, to - 1);
        let c = measure_count(records, m, from, to - 1);
        assert((c + 1) * 0x7fff_ffff_ffff_ffff == c * 0x7fff_ffff_ffff_ffff + 0x7fff_ffff_ffff_ffff)
            by (nonlinear_arith);
        assert((c + 1) * (-0x8000_0000_0000_0000) == c * (-0x8000_0000_0000_0000)
            - 0x8000_0000_0000_0000) by (nonlinear_arith);
    }
}

/// The mean of a measurement over the records `from..to`.
pub fn mean_over(records: &Vec<TelemetryRecord>, m: Measure, from: usize, to: usize) -> (r: Option<
    i64,
>)
    requires
        from <= to <= records.len(),
    ensures
        r == measure_mean(records@, m, from as int, to as int),
{
    let mut sum: i128 = 0;
    let mut count: i128 = 0;
    let mut i: usize = from;
    while i < to
        invariant
            from <= i <= to <= records.len(),
            sum == measure_sum(records@, m, from as int, i as int),
            count == measure_count(records@, m, from as int, i as int),
        decreases to - i,
    {
        proof {
            lemma_measure_bounds(records@, m, from as int, i as int);
            assert(count * 0x7fff_ffff_ffff_ffff <= 0xffff_ffff_ffff_ffff * 0x7fff_ffff_ffff_ffff)
                by (nonlinear_arith)
                requires
                    0 <= count <= 0xffff_ffff_ffff_ffff,
            ;
            assert(count * (-0x8000_0000_0000_0000) >= 0xffff_ffff_ffff_ffff * (
            -0x8000_0000_0000_0000)) by (nonlinear_arith)
                requires
                    0 <= count <= 0xffff_ffff_ffff_ffff,
            ;
        }
        match get_measure(&records[i], m) {
            Some(x) => {
                sum = sum + (x as i128);
                count = count + 1;
            },
            None => {},
        }
        i += 1;
    }
    if count == 0 {
        None
    } else {
        proof {
            lemma_measure_bounds(records@, m, from as int, to as int);
            let si = sum as int;
            let ci = count as int;
            if sum >= 0 {
                assert(0 <= si / ci <= 0x7fff_ffff_ffff_ffff) by (nonlinear_arith)
                    requires
                        0 <= si <= ci * 0x7fff_ffff_ffff_ffff,
                        ci > 0,
                ;
            } else {
                assert(0 <= (-si) / ci <= 0x8000_0000_0000_0000) by (nonlinear_arith)
                    requires
                        0 < -si <= ci * 0x8000_0000_0000_0000,
                        ci > 0,
                ;
            }
            assert(count * 0x8000_0000_0000_0000 <= 0xffff_ffff_ffff_ffff * 0x8000_0000_0000_0000)
                by (nonlinear_arith)
                requires
                    0 <= count <= 0xffff_ffff_ffff_ffff,
            ;
        }
        if sum >= 0 {
            Some((sum / count) as i64)
        } else {
            Some((-((-sum) / count)) as i64)
        }
    }
}

/// The camera state `c` of the record `r`.
pub fn get_camera_state(r: &TelemetryRecord, c: CameraState) -> (x: Option<bool>)
    ensures
        x == camera_state_of(*r, c),
{
    match c {
        CameraState::Photo => r.is_photo,
        CameraState::Video => r.is_video,
    }
}

/// The camera state of the bucket made of the records `from..to`.
pub fn camera_over(records: &Vec<TelemetryRecord>, c: CameraState, from: usize, to: usize) -> (r:
    Option<bool>)
    requires
        from <= to <= records.len(),
    ensures
        r == camera_state_over(records@, c, from as int, to as int),
{
    let mut seen_true = false;
    let mut seen = false;
    let mut i: usize = from;
    while i < to
        invariant
            from <= i <= to <= records.len(),
            seen_true == any_true(records@, c, from as int, i as int),
            seen == any_reported(records@, c, from as int, i as int),
        decreases to - i,
    {
        match get_camera_state(&records[i], c) {
            Some(b) => {
                seen = true;
                if b {
                    seen_true = true;
                }
            },
            None => {},
        }
        i += 1;
    }
    if seen_true {
        Some(true)
    } else if seen {
        Some(false)
    } else {
        None
    }
}

/// Multiplies a bucket's number by the bucket's length, held within the
/// range of `i64`.
fn bucket_begin(t: i64, size: i64) -> (r: i64)
    requires
        size > 0,
    ensures
        r == bucket_time(t, size as int),
{
    let q = floor_div(t, size);
    assert(-0x8000_0000_0000_0000 * 0x8000_0000_0000_0000 <= q * size <= 0x8000_0000_0000_0000
        * 0x8000_0000_0000_0000) by (nonlinear_arith)
        requires
            -0x8000_0000_0000_0000 <= q <= 0x7fff_ffff_ffff_ffff,
            0 < size <= 0x7fff_ffff_ffff_ffff,
    ;
    let product: i128 = (q as i128) * (size as i128);
    if product < i64::MIN as i128 {
        i64::MIN
    } else if product > i64::MAX as i128 {
        i64::MAX
    } else {
        product as i64
    }
}

/// The record that stands for the bucket made of the records `from..to`.
pub fn bucket_record(records: &Vec<TelemetryRecord>, from: usize, to: usize, size: i64) -> (out:
    TelemetryRecord)
    requires
        from < to <= records.len(),
        size > 0,
    ensures
        is_bucket_record(out, records@, from as int, to as int, size as int),
{
    let first = &records[from];
    TelemetryRecord {
        timestamp_ms: bucket_begin(first.timestamp_ms, size),
        latitude: mean_over(records, Measure::Latitude, from, to),
        longitude: mean_over(records, Measure::Longitude, from, to),
        altitude: mean_over(records, Measure::Altitude, from, to),
        height: mean_over(records, Measure::Height, from, to),
        vps_height: mean_over(records, Measure::VpsHeight, from, to),
        speed: mean_over(records, Measure::Speed, from, to),
        velocity_x: mean_over(records, Measure::VelocityX, from, to),
        velocity_y: mean_over(records, Measure::VelocityY, from, to),
        velocity_z: mean_over(records, Measure::VelocityZ, from, to),
        battery_voltage: mean_over(records, Measure::BatteryVoltage, from, to),
        battery_temp: mean_over(records, Measure::BatteryTemp, from, to),
        pitch: mean_over(records, Measure::Pitch, from, to),
        roll: mean_over(records, Measure::Roll, from, to),
        yaw: mean_over(records, Measure::Yaw, from, to),
        rc_aileron: mean_over(records, Measure::RcAileron, from, to),
        rc_elevator: mean_over(records, Measure::RcElevator, from, to),
        rc_throttle: mean_over(records, Measure::RcThrottle, from, to),
        rc_rudder: mean_over(records, Measure::RcRudder, from, to),
        battery_percent: first.battery_percent,
        satellites: first.satellites,
        rc_signal: first.rc_signal,
        rc_uplink: first.rc_uplink,
        rc_downlink: first.rc_downlink,
        flight_mode: match &first.flight_mode {
            Some(mode) => Some(mode.clone()),
            None => None,
        },
        cell_voltages: copy_cells(&first.cell_voltages),
        is_photo: camera_over(records, CameraState::Photo, from, to),
        is_video: camera_over(records, CameraState::Video, from, to),
    }
}

// ---------------------------------------------------------------------------
// All buckets
// ---------------------------------------------------------------------------

/// The buckets begin at indices of the records, the first at the first record,
/// each behind the one before.
pub proof fn lemma_bucket_starts(records: Seq<TelemetryRecord>, size: int, n: int)
    requires
        0 <= n <= records.len(),
    ensures
        bucket_starts(records, size, n).len() <= n,
        n > 0 ==> bucket_starts(records, size, n).len() > 0 && bucket_starts(records, size, n)[0]
            == 0,
        forall|k: int|
            0 <= k < bucket_starts(records, size, n).len() ==> 0 <= (#[trigger] bucket_starts(
                records,
                size,
                n,
            )[k]) < n,
        forall|a: int, b: int|
            0 <= a < b < bucket_starts(records, size, n).len() ==> bucket_starts(
                records,
                size,
                n,
            )[a] < bucket_starts(records, size, n)[b],
    decreases n,
{
    if n > 0 {
        lemma_bucket_starts(records, size, n - 1);
    }
}

/// Gathers ordered records in buckets of length `size` and gives one record
/// for each bucket that is not empty, in order of time.
pub fn downsample(records: &Vec<TelemetryRecord>, size: i64) -> (out: Vec<TelemetryRecord>)
    requires
        size > 0,
    ensures
        is_downsampled(out@, records@, size as int),
{
    let mut out: Vec<TelemetryRecord> = Vec::new();
    let n = records.len();
    if n == 0 {
        return out;
    }
    let mut start: usize = 0;
    let mut i: usize = 1;
    proof {
        assert(bucket_starts(records@, size as int, 0) =~= Seq::<int>::empty());
        assert(bucket_starts(records@, size as int, 1) =~= seq![0int]);
    }
    while i < n
        invariant
            1 <= i <= n,
            n == records.len(),
            size > 0,
            start < i,
            bucket_starts(records@, size as int, i as int).len() == out@.len() + 1,
            bucket_starts(records@, size as int, i as int).last() == start,
            forall|k: int|
                0 <= k < out@.len() ==> is_bucket_record(
                    #[trigger] out@[k],
                    records@,
                    bucket_starts(records@, size as int, i as int)[k],
                    bucket_starts(records@, size as int, i as int)[k + 1],
                    size as int,
                ),
        decreases n - i,
    {
        let ghost before = bucket_starts(records@, size as int, i as int);
        let ghost old_out = out@;
        if floor_div(records[i].timestamp_ms, size) != floor_div(records[i - 1].timestamp_ms, size) {
            let r = bucket_record(records, start, i, size);
            out.push(r);
            start = i;
            proof {
                let now = bucket_starts(records@, size as int, i + 1);
                assert(now == before.push(i as int));
                assert forall|k: int| 0 <= k < out@.len() implies is_bucket_record(
                    #[trigger] out@[k],
                    records@,
                    now[k],
                    now[k + 1],
                    size as int,
                ) by {
                    if k < old_out.len() {
                        assert(out@[k] == old_out[k]);
                        assert(now[k] == before[k] && now[k + 1] == before[k + 1]);
                    }
                }
            }
        } else {
            proof {
                assert(bucket_starts(records@, size as int, i + 1) == before);
            }
        }
        i += 1;
    }
    let ghost starts = bucket_starts(records@, size as int, n as int);
    let ghost old_out = out@;
    let last = bucket_record(records, start, n, size);
    out.push(last);
    proof {
        assert forall|k: int| 0 <= k < out@.len() implies is_bucket_record(
            #[trigger] out@[k],
            records@,
            starts[k],
            bucket_end(starts, k, n as int),
            size as int,
        ) by {
            if k < old_out.len() {
                assert(out@[k] == old_out[k]);
            }
        }
    }
    out
}

/// Computes the length of a bucket for ordered records.
pub fn compute_bucket_size(records: &Vec<TelemetryRecord>, max_points: usize) -> (size: i64)
    requires
        records@.len() > 0,
        max_points > 0,
        is_ordered(records@),
    ensures
        size == bucket_size(records@, max_points as int),
        size >= MIN_BUCKET_MS,
{
    let first = records[0].timestamp_ms as i128;
    let last = records[records.len() - 1].timestamp_ms as i128;
    assert(records@[0].timestamp_ms <= records@[records@.len() - 1].timestamp_ms);
    let duration: i128 = last - first;
    let raw: i128 = duration / (max_points as i128);
    assert(0 <= raw <= duration) by (nonlinear_arith)
        requires
            raw as int == (duration as int) / (max_points as int),
            duration >= 0,
            max_points >= 1,
    ;
    if raw > MIN_BUCKET_MS as i128 {
        if raw > i64::MAX as i128 {
            i64::MAX
        } else {
            raw as i64
        }
    } else {
        MIN_BUCKET_MS
    }
}


// ---------------------------------------------------------------------------
// Serving
// ---------------------------------------------------------------------------

/// The number of points up to which records are served as they are.
pub open spec fn point_limit(max_points: Option<usize>) -> int {
    match max_points {
        Some(m) => m as int,
        None => DEFAULT_MAX_POINTS as int,
    }
}

/// True when the records are served as they are: there are no more of
/// them than the limit.
pub open spec fn serves_raw(stored: int, max_points: Option<usize>) -> bool {
    stored <= point_limit(max_points)
}

/// Serves the ordered records of a flight. The records are served as they
/// are where there are no more of them than `max_points` (5000 where the
/// caller names none); else one record is served for each bucket.
pub fn serve(records: Vec<TelemetryRecord>, max_points: Option<usize>) -> (out: Vec<
    TelemetryRecord,
>)
    requires
        is_ordered(records@),
        max_points != Some(0usize),
    ensures
        serves_raw(records@.len() as int, max_points) ==> out == records,
        !serves_raw(records@.len() as int, max_points) ==> is_downsampled(
            out@,
            records@,
            bucket_size(records@, point_limit(max_points)),
        ),
{
    let limit: usize = match max_points {
        Some(m) => m,
        None => DEFAULT_MAX_POINTS,
    };
    if records.len() <= limit {
        records
    } else {
        let size = compute_bucket_size(&records, limit);
        downsample(&records, size)
    }
}

/// In ordered records every bucket that opens lies behind the one before:
/// the record before index `n` is at least as many buckets from the first
/// record as buckets have opened, less one.
pub proof fn lemma_buckets_advance(records: Seq<TelemetryRecord>, size: int, n: int)
    requires
        is_ordered(records),
        size > 0,
        1 <= n <= records.len(),
    ensures
        bucket_index(records[n - 1].timestamp_ms, size) >= bucket_index(
            records[0].timestamp_ms,
            size,
        ) + bucket_starts(records, size, n).len() - 1,
    decreases n,
{
    if n > 1 {
        lemma_buckets_advance(records, size, n - 1);
        assert(records[n - 2].timestamp_ms <= records[n - 1].timestamp_ms);
        lemma_div_is_ordered(
            records[n - 2].timestamp_ms as int,
            records[n - 1].timestamp_ms as int,
            size,
        );
    } else {
        assert(bucket_starts(records, size, 0) =~= Seq::<int>::empty());
    }
}

/// The number of buckets of length `size` that a stretch of time of length
/// `duration` takes where it begins with a bucket.
pub open spec fn buckets_needed(duration: int, size: int) -> int {
    (duration + size - 1) / size
}

/// Downsampling bounds what is served: ordered records that span a time
/// `duration` give no more records than the buckets that the duration
/// needs, and one more. They give no more than the duration needs where
/// the last record stands further into its bucket than the first.
pub proof fn lemma_downsampled_len(
    out: Seq<TelemetryRecord>,
    records: Seq<TelemetryRecord>,
    size: int,
)
    requires
        is_ordered(records),
        size > 0,
        records.len() > 0,
        is_downsampled(out, records, size),
    ensures
        out.len() <= records.len(),
        out.len() <= buckets_needed(
            records.last().timestamp_ms - records[0].timestamp_ms,
            size,
        ) + 1,
        (records.last().timestamp_ms as int) % size > (records[0].timestamp_ms as int) % size
            ==> out.len() <= buckets_needed(
            records.last().timestamp_ms - records[0].timestamp_ms,
            size,
        ),
{
    let n = records.len() as int;
    lemma_bucket_starts(records, size, n);
    lemma_buckets_advance(records, size, n);
    let first = records[0].timestamp_ms as int;
    let last = records[n - 1].timestamp_ms as int;
    let d = last - first;
    lemma_fundamental_div_mod(first, size);
    lemma_fundamental_div_mod(last, size);
    lemma_mod_bound(first, size);
    lemma_mod_bound(last, size);
    let qf = first / size;
    let rf = first % size;
    let ql = last / size;
    let rl = last % size;
    if rl > rf {
        assert(d + size - 1 == (ql - qf + 1) * size + (rl - rf - 1)) by (nonlinear_arith)
            requires
                first == size * qf + rf,
                last == size * ql + rl,
                d == last - first,
        ;
        lemma_fundamental_div_mod_converse(d + size - 1, size, ql - qf + 1, rl - rf - 1);
    } else {
        assert(d + size - 1 == (ql - qf) * size + (size - 1 + rl - rf)) by (nonlinear_arith)
            requires
                first == size * qf + rf,
                last == size * ql + rl,
                d == last - first,
        ;
        lemma_fundamental_div_mod_converse(d + size - 1, size, ql - qf, size - 1 + rl - rf);
    }
}

/// A camera state that any record of a bucket has true is true in the
/// record that stands for the bucket.
pub proof fn lemma_camera_state_is_kept(
    out: Seq<TelemetryRecord>,
    records: Seq<TelemetryRecord>,
    size: int,
    k: int,
    i: int,
)
    requires
        is_downsampled(out, records, size),
        0 <= k < out.len(),
        bucket_starts(records, size, records.len() as int)[k] <= i < bucket_end(
            bucket_starts(records, size, records.len() as int),
            k,
            records.len() as int,
        ),
    ensures
        records[i].is_photo == Some(true) ==> out[k].is_photo == Some(true),
        records[i].is_video == Some(true) ==> out[k].is_video == Some(true),
{
    let starts = bucket_starts(records, size, records.len() as int);
    let from = starts[k];
    let to = bucket_end(starts, k, records.len() as int);
    assert(is_bucket_record(out[k], records, from, to, size));
    if records[i].is_photo == Some(true) {
        assert(camera_state_of(records[i], CameraState::Photo) == Some(true));
        assert(any_true(records, CameraState::Photo, from, to));
    }
    if records[i].is_video == Some(true) {
        assert(camera_state_of(records[i], CameraState::Video) == Some(true));
        assert(any_true(records, CameraState::Video, from, to));
    }
}

} // verus!
