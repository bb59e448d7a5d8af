//! Decoded frames of a binary flight log and their validation.
//!
//! A frame is what the frame decoder hands over for one sample, with its
//! numbers already brought to the scaled units of [`crate::models`]. The
//! functions here turn a run of frames into telemetry points: a frame with a
//! number that is not finite is dropped whole, a position without a lock or
//! out of range is taken out, garbage heights and speeds are taken out, and
//! every frame gets its time.

use vstd::prelude::*;
use crate::models::{TelemetryPoint, TelemetryPointView};
use crate::ordering::{is_ordered, lemma_stable_sorted_remove, order_by_time, stable_sorted};

verus! {

/// A number read from a frame: finite, or not (NaN, an infinity).
#[derive(Debug, Clone, Copy, PartialEq, Eq, Structural)]
pub enum Reading {
    Finite(i64),
    NotFinite,
}

/// One decoded sample of a binary log, before validation.
#[derive(Debug, Clone, PartialEq, Eq)]
pub struct RawFrame {
    /// Time since take-off that the frame itself carries, if it carries one.
    pub fly_time_ms: Option<i64>,
    pub latitude: Reading,
    pub longitude: Reading,
    pub altitude: Reading,
    pub height: Reading,
    pub x_speed: Reading,
    pub y_speed: Reading,
    pub z_speed: Reading,
    pub vps_height: Option<i64>,
    pub pitch: Option<i64>,
    pub roll: Option<i64>,
    pub yaw: Option<i64>,
    pub gps_num: i32,
    pub gps_level: i32,
    pub flight_mode: Option<String>,
    pub gimbal_pitch: Option<i64>,
    pub gimbal_roll: Option<i64>,
    pub gimbal_yaw: Option<i64>,
    pub charge_level: i32,
    pub voltage: Option<i64>,
    pub current: Option<i64>,
    pub temperature: Option<i64>,
    pub uplink_signal: Option<i32>,
    pub downlink_signal: Option<i32>,
    pub aileron: u16,
    pub elevator: u16,
    pub throttle: u16,
    pub rudder: u16,
    pub is_photo: bool,
    pub is_video: bool,
}

/// What the position of a frame is worth.
#[derive(Debug, Clone, Copy, PartialEq, Eq, Structural)]
pub enum GpsFix {
    /// A position within range.
    Valid,
    /// Both coordinates within a millionth of a degree of zero: no lock.
    NoLock,
    /// A latitude beyond 90 degrees or a longitude beyond 180.
    OutOfRange,
}

/// A millionth of a degree, below which a coordinate counts as zero.
pub const GPS_EPSILON: i64 = 10;

/// Ninety degrees.
pub const MAX_LATITUDE: i64 = 900_000_000;

/// A hundred and eighty degrees.
pub const MAX_LONGITUDE: i64 = 1_800_000_000;

/// Ten kilometres: an altitude or height of this magnitude or more is garbage.
pub const ALTITUDE_LIMIT: i64 = 10_000_000;

/// A hundred metres per second: a ground speed of this much or more is garbage.
pub const SPEED_LIMIT: i64 = 100_000;

/// The centre of a raw stick reading.
pub const STICK_CENTER: u16 = 1024;

/// Time given to each frame when neither the frames nor the log's header
/// tell: a tenth of a second.
pub const DEFAULT_INTERVAL_MS: i64 = 100;

/// The distance of a number from zero.
pub open spec fn magnitude(x: int) -> int {
    if x < 0 {
        -x
    } else {
        x
    }
}

/// A number held within the range of `i64`.
pub open spec fn clamp_i64(x: int) -> i64 {
    if x < i64::MIN {
        i64::MIN
    } else if x > i64::MAX {
        i64::MAX
    } else {
        x as i64
    }
}

/// The fix of a position.
pub open spec fn gps_fix(lat: i64, lon: i64) -> GpsFix {
    if magnitude(lat as int) < GPS_EPSILON && magnitude(lon as int) < GPS_EPSILON {
        GpsFix::NoLock
    } else if magnitude(lat as int) <= MAX_LATITUDE && magnitude(lon as int) <= MAX_LONGITUDE {
        GpsFix::Valid
    } else {
        GpsFix::OutOfRange
    }
}

/// An altitude or height, unless it is garbage.
pub open spec fn plausible_altitude(x: i64) -> Option<i64> {
    if magnitude(x as int) < ALTITUDE_LIMIT {
        Some(x)
    } else {
        None
    }
}

/// True when `r` is the whole part of the square root of `n`.
pub open spec fn is_int_sqrt(n: int, r: int) -> bool {
    0 <= r && r * r <= n && n < (r + 1) * (r + 1)
}

/// The whole part of the square root of `n`.
pub open spec fn int_sqrt(n: int) -> int {
    choose|r: int| is_int_sqrt(n, r)
}

/// A number has one whole square root.
pub proof fn lemma_int_sqrt_unique(n: int, a: int, b: int)
    requires
        is_int_sqrt(n, a),
        is_int_sqrt(n, b),
    ensures
        a == b,
{
    if a < b {
        assert((a + 1) * (a + 1) <= b * b) by (nonlinear_arith)
            requires
                0 <= a,
                a + 1 <= b,
        ;
    } else if b < a {
        assert((b + 1) * (b + 1) <= a * a) by (nonlinear_arith)
            requires
                0 <= b,
                b + 1 <= a,
        ;
    }
}

/// A whole square root of a number is the whole square root of the number.
pub proof fn lemma_int_sqrt_is(n: int, r: int)
    requires
        is_int_sqrt(n, r),
    ensures
        int_sqrt(n) == r,
{
    lemma_int_sqrt_unique(n, r, int_sqrt(n));
}

/// The ground speed that two velocity components make, unless it is garbage.
pub open spec fn ground_speed(vx: i64, vy: i64) -> Option<i64> {
    let sq = vx * vx + vy * vy;
    if sq < SPEED_LIMIT * SPEED_LIMIT {
        Some(int_sqrt(sq) as i64)
    } else {
        None
    }
}

/// A raw stick reading, re-centred and scaled to thousandths of a percent,
/// cut off toward zero and held within a hundred percent either way.
pub open spec fn stick_percent(raw: u16) -> i64 {
    if raw >= 2 * STICK_CENTER {
        100_000
    } else if raw >= STICK_CENTER {
        (((raw - STICK_CENTER) * 100_000) / (STICK_CENTER as int)) as i64
    } else {
        (-(((STICK_CENTER - raw) * 100_000) / (STICK_CENTER as int))) as i64
    }
}

impl RawFrame {
    /// True when every number that validation looks at is finite.
    pub open spec fn is_finite(&self) -> bool {
        &&& self.latitude is Finite
        &&& self.longitude is Finite
        &&& self.altitude is Finite
        &&& self.height is Finite
        &&& self.x_speed is Finite
        &&& self.y_speed is Finite
        &&& self.z_speed is Finite
    }

    /// The fix of the frame's position. Only a finite frame has one.
    pub open spec fn fix(&self) -> GpsFix {
        gps_fix(self.latitude->0, self.longitude->0)
    }

    /// The telemetry point that a finite frame becomes at `timestamp_ms`.
    pub open spec fn point_at(&self, timestamp_ms: i64) -> TelemetryPoint {
        let valid = self.fix() == GpsFix::Valid;
        TelemetryPoint {
            timestamp_ms,
            latitude: if valid {
                Some(self.latitude->0)
            } else {
                None
            },
            longitude: if valid {
                Some(self.longitude->0)
            } else {
                None
            },
            altitude: plausible_altitude(self.altitude->0),
            height: plausible_altitude(self.height->0),
            vps_height: self.vps_height,
            altitude_abs: None,
            speed: if valid {
                ground_speed(self.x_speed->0, self.y_speed->0)
            } else {
                None
            },
            velocity_x: if valid {
                Some(self.x_speed->0)
            } else {
                None
            },
            velocity_y: if valid {
                Some(self.y_speed->0)
            } else {
                None
            },
            velocity_z: if valid {
                Some(self.z_speed->0)
            } else {
                None
            },
            pitch: self.pitch,
            roll: self.roll,
            yaw: self.yaw,
            gimbal_pitch: self.gimbal_pitch,
            gimbal_roll: self.gimbal_roll,
            gimbal_yaw: self.gimbal_yaw,
            battery_percent: Some(self.charge_level),
            battery_voltage: self.voltage,
            battery_current: self.current,
            battery_temp: self.temperature,
            cell_voltages: None,
            flight_mode: self.flight_mode,
            gps_signal: Some(self.gps_level),
            satellites: Some(self.gps_num),
            rc_signal: if self.downlink_signal is Some {
                self.downlink_signal
            } else {
                self.uplink_signal
            },
            rc_uplink: self.uplink_signal,
            rc_downlink: self.downlink_signal,
            rc_aileron: Some(stick_percent(self.aileron)),
            rc_elevator: Some(stick_percent(self.elevator)),
            rc_throttle: Some(stick_percent(self.throttle)),
            rc_rudder: Some(stick_percent(self.rudder)),
            is_photo: Some(self.is_photo),
            is_video: Some(self.is_video),
        }
    }

    /// Decides whether every number that validation looks at is finite.
    pub fn check_finite(&self) -> (r: bool)
        ensures
            r == self.is_finite(),
    {
        matches!(self.latitude, Reading::Finite(_)) && matches!(self.longitude, Reading::Finite(_))
            && matches!(self.altitude, Reading::Finite(_)) && matches!(
            self.height,
            Reading::Finite(_),
        ) && matches!(self.x_speed, Reading::Finite(_)) && matches!(
            self.y_speed,
            Reading::Finite(_),
        ) && matches!(self.z_speed, Reading::Finite(_))
    }
}

/// Decides what a position is worth.
pub fn classify_gps(lat: i64, lon: i64) -> (r: GpsFix)
    ensures
        r == gps_fix(lat, lon),
{
    if -GPS_EPSILON < lat && lat < GPS_EPSILON && -GPS_EPSILON < lon && lon < GPS_EPSILON {
        GpsFix::NoLock
    } else if -MAX_LATITUDE <= lat && lat <= MAX_LATITUDE && -MAX_LONGITUDE <= lon && lon
        <= MAX_LONGITUDE {
        GpsFix::Valid
    } else {
        GpsFix::OutOfRange
    }
}

/// Keeps an altitude or height unless it is garbage.
pub fn check_altitude(x: i64) -> (r: Option<i64>)
    ensures
        r == plausible_altitude(x),
{
    if -ALTITUDE_LIMIT < x && x < ALTITUDE_LIMIT {
        Some(x)
    } else {
        None
    }
}

/// The whole part of the square root of `n`.
pub fn isqrt(n: u64) -> (r: u64)
    ensures
        is_int_sqrt(n as int, r as int),
        r == int_sqrt(n as int),
{
    let mut lo: u64 = 0;
    let mut hi: u64 = 0x1_0000_0000;
    assert(n < 0x1_0000_0000 * 0x1_0000_0000);
    while hi - lo > 1
        invariant
            lo < hi <= 0x1_0000_0000,
            lo * lo <= n,
            n < hi * hi,
        decreases hi - lo,
    {
        let mid: u64 = lo + (hi - lo) / 2;
        assert(mid * mid <= 0xffff_ffff * 0xffff_ffff) by (nonlinear_arith)
            requires
                mid <= 0xffff_ffff,
        ;
        if mid * mid <= n {
            lo = mid;
        } else {
            hi = mid;
        }
    }
    proof {
        lemma_int_sqrt_is(n as int, lo as int);
    }
    lo
}

/// The ground speed that two velocity components make, unless it is garbage.
pub fn compute_ground_speed(vx: i64, vy: i64) -> (r: Option<i64>)
    ensures
        r == ground_speed(vx, vy),
{
    if vx <= -SPEED_LIMIT || vx >= SPEED_LIMIT || vy <= -SPEED_LIMIT || vy >= SPEED_LIMIT {
        proof {
            assert(vx * vx + vy * vy >= SPEED_LIMIT * SPEED_LIMIT) by (nonlinear_arith)
                requires
                    vx <= -SPEED_LIMIT || vx >= SPEED_LIMIT || vy <= -SPEED_LIMIT || vy
                        >= SPEED_LIMIT,
                    SPEED_LIMIT == 100_000,
            ;
        }
        return None;
    }
    assert(vx * vx <= 100_000 * 100_000 && vy * vy <= 100_000 * 100_000) by (nonlinear_arith)
        requires
            -100_000 < vx < 100_000,
            -100_000 < vy < 100_000,
    ;
    assert(vx * vx >= 0 && vy * vy >= 0) by (nonlinear_arith);
    let sq: i64 = vx * vx + vy * vy;
    if sq < SPEED_LIMIT * SPEED_LIMIT {
        let root = isqrt(sq as u64);
        assert(root < 100_000) by (nonlinear_arith)
            requires
                root * root <= sq,
                sq < 100_000 * 100_000,
                root >= 0,
        ;
        Some(root as i64)
    } else {
        None
    }
}

/// Re-centres a raw stick reading and scales it to thousandths of a percent.
pub fn normalize_stick(raw: u16) -> (r: i64)
    ensures
        r == stick_percent(raw),
        -100_000 <= r <= 100_000,
{
    if raw >= 2 * STICK_CENTER {
        100_000
    } else if raw >= STICK_CENTER {
        (((raw - STICK_CENTER) as i64) * 100_000) / (STICK_CENTER as i64)
    } else {
        -((((STICK_CENTER - raw) as i64) * 100_000) / (STICK_CENTER as i64))
    }
}


// ---------------------------------------------------------------------------
// Points read from text
// ---------------------------------------------------------------------------

/// An altitude or height that may be there, unless it is garbage.
pub open spec fn plausible(x: Option<i64>) -> Option<i64> {
    match x {
        Some(v) => plausible_altitude(v),
        None => None,
    }
}

/// A ground speed that may be there, unless it is garbage: a hundred
/// metres per second or more, either way.
pub open spec fn plausible_speed(x: Option<i64>) -> Option<i64> {
    match x {
        Some(v) => if magnitude(v as int) < SPEED_LIMIT {
            Some(v)
        } else {
            None
        },
        None => None,
    }
}

/// True when the point has a position that is worth one.
pub open spec fn is_located(p: TelemetryPointView) -> bool {
    p.latitude is Some && p.longitude is Some && gps_fix(p.latitude->0, p.longitude->0)
        == GpsFix::Valid
}

/// A point read from text after the filters that every source goes
/// through: a position without a lock or out of range is taken out, and
/// the speed and the velocity with it; garbage altitudes, heights and
/// speeds are taken out. Everything else stays.
pub open spec fn sane_point(p: TelemetryPointView) -> TelemetryPointView {
    let located = is_located(p);
    TelemetryPointView {
        latitude: if located {
            p.latitude
        } else {
            None
        },
        longitude: if located {
            p.longitude
        } else {
            None
        },
        altitude: plausible(p.altitude),
        height: plausible(p.height),
        speed: if located {
            plausible_speed(p.speed)
        } else {
            None
        },
        velocity_x: if located {
            p.velocity_x
        } else {
            None
        },
        velocity_y: if located {
            p.velocity_y
        } else {
            None
        },
        velocity_z: if located {
            p.velocity_z
        } else {
            None
        },
        ..p
    }
}

fn keep_plausible(x: Option<i64>) -> (r: Option<i64>)
    ensures
        r == plausible(x),
{
    match x {
        Some(v) => check_altitude(v),
        None => None,
    }
}

/// Puts a point read from text through the filters that every source goes
/// through.
pub fn sanitize_point(p: TelemetryPoint) -> (r: TelemetryPoint)
    ensures
        r@ == sane_point(p@),
{
    let located = match (p.latitude, p.longitude) {
        (Some(lat), Some(lon)) => match classify_gps(lat, lon) {
            GpsFix::Valid => true,
            _ => false,
        },
        _ => false,
    };
    let mut r = p;
    if !located {
        r.latitude = None;
        r.longitude = None;
        r.speed = None;
        r.velocity_x = None;
        r.velocity_y = None;
        r.velocity_z = None;
    } else {
        r.speed = match r.speed {
            Some(v) => if -SPEED_LIMIT < v && v < SPEED_LIMIT {
                Some(v)
            } else {
                None
            },
            None => None,
        };
    }
    r.altitude = keep_plausible(r.altitude);
    r.height = keep_plausible(r.height);
    r
}

// ---------------------------------------------------------------------------
// A run of frames
// ---------------------------------------------------------------------------

impl RawFrame {
    /// The time that the frame itself carries: a positive time since
    /// take-off. Zero and below stand for "not reported".
    pub open spec fn own_time(&self) -> Option<i64> {
        match self.fly_time_ms {
            Some(t) => if t > 0 {
                Some(t)
            } else {
                None
            },
            None => None,
        }
    }

    /// The time that the frame itself carries, if it carries one.
    pub fn get_own_time(&self) -> (r: Option<i64>)
        ensures
            r == self.own_time(),
    {
        match self.fly_time_ms {
            Some(t) => if t > 0 {
                Some(t)
            } else {
                None
            },
            None => None,
        }
    }

    /// Validates one finite frame and gives it the time `timestamp_ms`.
    pub fn to_point(&self, timestamp_ms: i64) -> (p: TelemetryPoint)
        requires
            self.is_finite(),
        ensures
            p == self.point_at(timestamp_ms),
    {
        let lat = match self.latitude {
            Reading::Finite(x) => x,
            Reading::NotFinite => 0,
        };
        let lon = match self.longitude {
            Reading::Finite(x) => x,
            Reading::NotFinite => 0,
        };
        let alt = match self.altitude {
            Reading::Finite(x) => x,
            Reading::NotFinite => 0,
        };
        let height = match self.height {
            Reading::Finite(x) => x,
            Reading::NotFinite => 0,
        };
        let vx = match self.x_speed {
            Reading::Finite(x) => x,
            Reading::NotFinite => 0,
        };
        let vy = match self.y_speed {
            Reading::Finite(x) => x,
            Reading::NotFinite => 0,
        };
        let vz = match self.z_speed {
            Reading::Finite(x) => x,
            Reading::NotFinite => 0,
        };
        let valid = match classify_gps(lat, lon) {
            GpsFix::Valid => true,
            _ => false,
        };
        TelemetryPoint {
            timestamp_ms,
            latitude: if valid {
                Some(lat)
            } else {
                None
            },
            longitude: if valid {
                Some(lon)
            } else {
                None
            },
            altitude: check_altitude(alt),
            height: check_altitude(height),
            vps_height: self.vps_height,
            altitude_abs: None,
            speed: if valid {
                compute_ground_speed(vx, vy)
            } else {
                None
            },
            velocity_x: if valid {
                Some(vx)
            } else {
                None
            },
            velocity_y: if valid {
                Some(vy)
            } else {
                None
            },
            velocity_z: if valid {
                Some(vz)
            } else {
                None
            },
            pitch: self.pitch,
            roll: self.roll,
            yaw: self.yaw,
            gimbal_pitch: self.gimbal_pitch,
            gimbal_roll: self.gimbal_roll,
            gimbal_yaw: self.gimbal_yaw,
            battery_percent: Some(self.charge_level),
            battery_voltage: self.voltage,
            battery_current: self.current,
            battery_temp: self.temperature,
            cell_voltages: None,
            flight_mode: match &self.flight_mode {
                Some(m) => Some(m.clone()),
                None => None,
            },
            gps_signal: Some(self.gps_level),
            satellites: Some(self.gps_num),
            rc_signal: match self.downlink_signal {
                Some(d) => Some(d),
                None => self.uplink_signal,
            },
            rc_uplink: self.uplink_signal,
            rc_downlink: self.downlink_signal,
            rc_aileron: Some(normalize_stick(self.aileron)),
            rc_elevator: Some(normalize_stick(self.elevator)),
            rc_throttle: Some(normalize_stick(self.throttle)),
            rc_rudder: Some(normalize_stick(self.rudder)),
            is_photo: Some(self.is_photo),
            is_video: Some(self.is_video),
        }
    }
}

/// True when some frame carries its own time.
pub open spec fn has_own_time(frames: Seq<RawFrame>) -> bool {
    exists|i: int| 0 <= i < frames.len() && (#[trigger] frames[i]).own_time() is Some
}

/// The time that passes from one frame to the next where the frames do not
/// tell: the flight's declared duration spread evenly over the frames,
/// rounded to the millisecond; a tenth of a second where that cannot be
/// had.
pub open spec fn fallback_interval(frames: Seq<RawFrame>, total_time_ms: i64) -> i64 {
    if !has_own_time(frames) && total_time_ms > 0 && frames.len() > 0 {
        ((2 * total_time_ms + frames.len()) / (2 * (frames.len() as int))) as i64
    } else {
        DEFAULT_INTERVAL_MS
    }
}

/// The time of frame `i`: its own where it carries one; else the time of
/// the frame before plus the interval, and zero for the first frame.
pub open spec fn frame_time(frames: Seq<RawFrame>, interval: i64, i: int) -> i64
    decreases i,
{
    match frames[i].own_time() {
        Some(t) => t,
        None => if i <= 0 {
            0
        } else {
            clamp_i64(frame_time(frames, interval, i - 1) + interval)
        },
    }
}

/// The points of the first `n` frames, in the frames' order: one for each
/// finite frame, none for the others.
pub open spec fn validated_upto(frames: Seq<RawFrame>, interval: i64, n: nat) -> Seq<
    TelemetryPoint,
>
    decreases n,
{
    if n == 0 {
        Seq::empty()
    } else {
        let before = validated_upto(frames, interval, (n - 1) as nat);
        if frames[n - 1].is_finite() {
            before.push(frames[n - 1].point_at(frame_time(frames, interval, n - 1)))
        } else {
            before
        }
    }
}

/// The points of all the frames, in the frames' order.
pub open spec fn validated(frames: Seq<RawFrame>, interval: i64) -> Seq<TelemetryPoint> {
    validated_upto(frames, interval, frames.len())
}

/// How many of the first `n` frames `p` holds of.
pub open spec fn count_upto(frames: Seq<RawFrame>, p: spec_fn(RawFrame) -> bool, n: nat) -> nat
    decreases n,
{
    if n == 0 {
        0
    } else {
        count_upto(frames, p, (n - 1) as nat) + if p(frames[n - 1]) {
            1nat
        } else {
            0nat
        }
    }
}

/// No more frames are counted than are looked at.
pub proof fn lemma_count_upto_bound(frames: Seq<RawFrame>, p: spec_fn(RawFrame) -> bool, n: nat)
    ensures
        count_upto(frames, p, n) <= n,
    decreases n,
{
    if n > 0 {
        lemma_count_upto_bound(frames, p, (n - 1) as nat);
    }
}

/// True when a number of the frame is not finite.
pub open spec fn is_corrupt(f: RawFrame) -> bool {
    !f.is_finite()
}

/// True when the position of a finite frame is at the origin.
pub open spec fn lacks_lock(f: RawFrame) -> bool {
    f.is_finite() && f.fix() == GpsFix::NoLock
}

/// True when the position of a finite frame is off the globe.
pub open spec fn is_out_of_range(f: RawFrame) -> bool {
    f.is_finite() && f.fix() == GpsFix::OutOfRange
}

/// True when the altitude of a finite frame is not plausible.
pub open spec fn has_bad_altitude(f: RawFrame) -> bool {
    f.is_finite() && plausible_altitude(f.altitude->0) is None
}

/// True when the height of a finite frame is not plausible.
pub open spec fn has_bad_height(f: RawFrame) -> bool {
    f.is_finite() && plausible_altitude(f.height->0) is None
}

/// True when a finite frame with a valid position has a speed over ground
/// beyond the limit.
pub open spec fn has_bad_speed(f: RawFrame) -> bool {
    f.is_finite() && f.fix() == GpsFix::Valid && ground_speed(f.x_speed->0, f.y_speed->0) is None
}

/// The points of a run of frames, and how many frames each filter caught.
#[derive(Debug, Clone, PartialEq, Eq)]
pub struct Validation {
    /// One point for each finite frame, in the frames' order.
    pub points: Vec<TelemetryPoint>,
    /// Frames dropped for a number that is not finite.
    pub skipped_corrupt: usize,
    /// Frames whose position is no lock.
    pub skipped_no_gps: usize,
    /// Frames whose position is out of range.
    pub skipped_out_of_range: usize,
    /// Frames whose altitude was taken out.
    pub rejected_altitude: usize,
    /// Frames whose height was taken out.
    pub rejected_height: usize,
    /// Frames whose ground speed was taken out.
    pub rejected_speed: usize,
}

/// Decides whether some frame carries its own time.
pub fn any_own_time(frames: &Vec<RawFrame>) -> (r: bool)
    ensures
        r == has_own_time(frames@),
{
    let mut i: usize = 0;
    while i < frames.len()
        invariant
            i <= frames.len(),
            forall|j: int| 0 <= j < i ==> (#[trigger] frames@[j]).own_time() is None,
        decreases frames.len() - i,
    {
        if frames[i].get_own_time().is_some() {
            return true;
        }
        i += 1;
    }
    false
}

/// Computes the time that passes from one frame to the next where the
/// frames do not tell.
pub fn compute_fallback_interval(frames: &Vec<RawFrame>, total_time_ms: i64) -> (r: i64)
    ensures
        r == fallback_interval(frames@, total_time_ms),
{
    if total_time_ms > 0 && frames.len() > 0 && !any_own_time(frames) {
        let n: u128 = frames.len() as u128;
        let t: u128 = total_time_ms as u128;
        let q: u128 = (2 * t + n) / (2 * n);
        assert(q <= t) by (nonlinear_arith)
            requires
                q == (2 * t + n) / (2 * n),
                n >= 1,
                t >= 1,
        ;
        q as i64
    } else {
        DEFAULT_INTERVAL_MS
    }
}

/// Adds two times, stopping at the ends of the range.
pub fn add_clamped(a: i64, b: i64) -> (r: i64)
    ensures
        r == clamp_i64(a + b),
{
    let sum: i128 = a as i128 + b as i128;
    if sum < i64::MIN as i128 {
        i64::MIN
    } else if sum > i64::MAX as i128 {
        i64::MAX
    } else {
        sum as i64
    }
}

/// Validates a run of frames, one after the other. A frame with a number
/// that is not finite gives no point and is counted; every other frame
/// gives exactly one point, whatever the filters take out of it. Each frame
/// has its time, whether it gives a point or not.
pub fn validate_frames(frames: &Vec<RawFrame>, interval: i64) -> (r: Validation)
    ensures
        r.points@ == validated(frames@, interval),
        r.skipped_corrupt == count_upto(frames@, |f: RawFrame| is_corrupt(f), frames@.len()),
        r.skipped_no_gps == count_upto(frames@, |f: RawFrame| lacks_lock(f), frames@.len()),
        r.skipped_out_of_range == count_upto(
            frames@,
            |f: RawFrame| is_out_of_range(f),
            frames@.len(),
        ),
        r.rejected_altitude == count_upto(
            frames@,
            |f: RawFrame| has_bad_altitude(f),
            frames@.len(),
        ),
        r.rejected_height == count_upto(frames@, |f: RawFrame| has_bad_height(f), frames@.len()),
        r.rejected_speed == count_upto(frames@, |f: RawFrame| has_bad_speed(f), frames@.len()),
        r.points@.len() + r.skipped_corrupt == frames@.len(),
{
    let mut points: Vec<TelemetryPoint> = Vec::new();
    let mut skipped_corrupt: usize = 0;
    let mut skipped_no_gps: usize = 0;
    let mut skipped_out_of_range: usize = 0;
    let mut rejected_altitude: usize = 0;
    let mut rejected_height: usize = 0;
    let mut rejected_speed: usize = 0;
    let mut next_time: i64 = 0;
    let mut i: usize = 0;
    while i < frames.len()
        invariant
            i <= frames.len(),
            points@ == validated_upto(frames@, interval, i as nat),
            skipped_corrupt == count_upto(frames@, |f: RawFrame| is_corrupt(f), i as nat),
            skipped_no_gps == count_upto(frames@, |f: RawFrame| lacks_lock(f), i as nat),
            skipped_out_of_range == count_upto(frames@, |f: RawFrame| is_out_of_range(f), i as nat),
            rejected_altitude == count_upto(frames@, |f: RawFrame| has_bad_altitude(f), i as nat),
            rejected_height == count_upto(frames@, |f: RawFrame| has_bad_height(f), i as nat),
            rejected_speed == count_upto(frames@, |f: RawFrame| has_bad_speed(f), i as nat),
            points@.len() + skipped_corrupt == i,
            i == 0 ==> next_time == 0,
            i > 0 ==> next_time == clamp_i64(frame_time(frames@, interval, i - 1) + interval),
        decreases frames.len() - i,
    {
        let frame = &frames[i];
        let time = match frame.get_own_time() {
            Some(t) => t,
            None => next_time,
        };
        assert(time == frame_time(frames@, interval, i as int));
        proof {
            lemma_count_upto_bound(frames@, |f: RawFrame| lacks_lock(f), i as nat);
            lemma_count_upto_bound(frames@, |f: RawFrame| is_out_of_range(f), i as nat);
            lemma_count_upto_bound(frames@, |f: RawFrame| has_bad_altitude(f), i as nat);
            lemma_count_upto_bound(frames@, |f: RawFrame| has_bad_height(f), i as nat);
            lemma_count_upto_bound(frames@, |f: RawFrame| has_bad_speed(f), i as nat);
        }
        if frame.check_finite() {
            let point = frame.to_point(time);
            let lat = match frame.latitude {
                Reading::Finite(x) => x,
                Reading::NotFinite => 0,
            };
            let lon = match frame.longitude {
                Reading::Finite(x) => x,
                Reading::NotFinite => 0,
            };
            match classify_gps(lat, lon) {
                GpsFix::Valid => {
                    if point.speed.is_none() {
                        rejected_speed += 1;
                    }
                },
                GpsFix::NoLock => {
                    skipped_no_gps += 1;
                },
                GpsFix::OutOfRange => {
                    skipped_out_of_range += 1;
                },
            }
            if point.altitude.is_none() {
                rejected_altitude += 1;
            }
            if point.height.is_none() {
                rejected_height += 1;
            }
            points.push(point);
        } else {
            skipped_corrupt += 1;
        }
        next_time = add_clamped(time, interval);
        i += 1;
    }
    Validation {
        points,
        skipped_corrupt,
        skipped_no_gps,
        skipped_out_of_range,
        rejected_altitude,
        rejected_height,
        rejected_speed,
    }
}


// ---------------------------------------------------------------------------
// Extraction
// ---------------------------------------------------------------------------

/// The telemetry of a run of frames: the points of the finite frames, in
/// order of time.
pub open spec fn extracted(frames: Seq<RawFrame>, total_time_ms: i64) -> Seq<TelemetryPoint> {
    stable_sorted(validated(frames, fallback_interval(frames, total_time_ms)))
}

/// Turns the frames of a log into its telemetry: validates each frame, gives
/// it its time and puts the points in order of time. `total_time_ms` is the
/// duration that the log's header declares, zero or less where it
/// declares none.
pub fn extract_points(frames: &Vec<RawFrame>, total_time_ms: i64) -> (r: Validation)
    ensures
        r.points@ == extracted(frames@, total_time_ms),
        is_ordered(r.points@),
        r.points@.len() + r.skipped_corrupt == frames@.len(),
        r.skipped_corrupt == count_upto(frames@, |f: RawFrame| is_corrupt(f), frames@.len()),
        r.skipped_no_gps == count_upto(frames@, |f: RawFrame| lacks_lock(f), frames@.len()),
        r.skipped_out_of_range == count_upto(
            frames@,
            |f: RawFrame| is_out_of_range(f),
            frames@.len(),
        ),
        r.rejected_altitude == count_upto(
            frames@,
            |f: RawFrame| has_bad_altitude(f),
            frames@.len(),
        ),
        r.rejected_height == count_upto(frames@, |f: RawFrame| has_bad_height(f), frames@.len()),
        r.rejected_speed == count_upto(frames@, |f: RawFrame| has_bad_speed(f), frames@.len()),
{
    let interval = compute_fallback_interval(frames, total_time_ms);
    let v = validate_frames(frames, interval);
    Validation {
        points: order_by_time(v.points),
        skipped_corrupt: v.skipped_corrupt,
        skipped_no_gps: v.skipped_no_gps,
        skipped_out_of_range: v.skipped_out_of_range,
        rejected_altitude: v.rejected_altitude,
        rejected_height: v.rejected_height,
        rejected_speed: v.rejected_speed,
    }
}

/// Frames that carry the same times have the same times.
pub proof fn lemma_frame_time_depends_on_own_times(
    a: Seq<RawFrame>,
    b: Seq<RawFrame>,
    interval: i64,
    i: int,
)
    requires
        0 <= i < a.len(),
        a.len() == b.len(),
        forall|j: int| 0 <= j < a.len() ==> (#[trigger] a[j]).own_time() == b[j].own_time(),
    ensures
        frame_time(a, interval, i) == frame_time(b, interval, i),
    decreases i,
{
    if i > 0 {
        lemma_frame_time_depends_on_own_times(a, b, interval, i - 1);
    }
}

/// The validation of frames of which one is replaced by a frame that is not
/// finite and carries the same time.
proof fn lemma_validated_upto_corrupted(
    frames: Seq<RawFrame>,
    k: int,
    bad: RawFrame,
    interval: i64,
    n: nat,
)
    requires
        0 <= k < frames.len(),
        n <= frames.len(),
        frames[k].is_finite(),
        !bad.is_finite(),
        bad.own_time() == frames[k].own_time(),
    ensures
        n <= k ==> validated_upto(frames.update(k, bad), interval, n) == validated_upto(
            frames,
            interval,
            n,
        ),
        n > k ==> validated_upto(frames.update(k, bad), interval, n) == validated_upto(
            frames,
            interval,
            n,
        ).remove(validated_upto(frames, interval, k as nat).len() as int),
        n > k ==> validated_upto(frames, interval, k as nat).len() < validated_upto(
            frames,
            interval,
            n,
        ).len(),
        n > k ==> validated_upto(frames, interval, n)[validated_upto(
            frames,
            interval,
            k as nat,
        ).len() as int] == frames[k].point_at(frame_time(frames, interval, k)),
    decreases n,
{
    let changed = frames.update(k, bad);
    if n > 0 {
        lemma_validated_upto_corrupted(frames, k, bad, interval, (n - 1) as nat);
        assert forall|j: int| 0 <= j < frames.len() implies (#[trigger] frames[j]).own_time()
            == changed[j].own_time() by {}
        lemma_frame_time_depends_on_own_times(frames, changed, interval, n - 1);
        let j = validated_upto(frames, interval, k as nat).len() as int;
        let before = validated_upto(frames, interval, (n - 1) as nat);
        if n - 1 == k {
            let p = frames[k].point_at(frame_time(frames, interval, k));
            assert(before.push(p).remove(j) =~= before);
        } else if n - 1 > k {
            if frames[n - 1].is_finite() {
                let p = frames[n - 1].point_at(frame_time(frames, interval, n - 1));
                assert(before.remove(j).push(p) =~= before.push(p).remove(j));
            }
        }
    }
}

/// A frame with a number that is not finite is dropped, it alone: where one
/// finite frame of a log is replaced by a frame that is not finite and
/// carries the same time, the telemetry loses the point of that frame and
/// is otherwise the same, point for point and in the same order.
pub proof fn lemma_corrupt_frame_is_dropped(
    frames: Seq<RawFrame>,
    k: int,
    bad: RawFrame,
    total_time_ms: i64,
) -> (pos: int)
    requires
        0 <= k < frames.len(),
        frames[k].is_finite(),
        !bad.is_finite(),
        bad.own_time() == frames[k].own_time(),
    ensures
        0 <= pos < extracted(frames, total_time_ms).len(),
        extracted(frames, total_time_ms)[pos] == frames[k].point_at(
            frame_time(frames, fallback_interval(frames, total_time_ms), k),
        ),
        extracted(frames.update(k, bad), total_time_ms) == extracted(frames, total_time_ms).remove(
            pos,
        ),
{
    let changed = frames.update(k, bad);
    let interval = fallback_interval(frames, total_time_ms);
    assert(has_own_time(changed) == has_own_time(frames)) by {
        if has_own_time(frames) {
            let i = choose|i: int| 0 <= i < frames.len() && (#[trigger] frames[i]).own_time() is Some;
            assert(changed[i].own_time() is Some);
        }
        if has_own_time(changed) {
            let i = choose|i: int| 0 <= i < changed.len() && (#[trigger] changed[i]).own_time() is Some;
            assert(frames[i].own_time() is Some);
        }
    }
    assert(fallback_interval(changed, total_time_ms) == interval);
    lemma_validated_upto_corrupted(frames, k, bad, interval, frames.len());
    let j = validated_upto(frames, interval, k as nat).len() as int;
    lemma_stable_sorted_remove(validated(frames, interval), j)
}

} // verus!
