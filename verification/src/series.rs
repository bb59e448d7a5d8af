//! Telemetry as one series per quantity, and the track drawn on a map.

use vstd::prelude::*;
use crate::frames::{clamp_i64, GPS_EPSILON};
use crate::models::TelemetryRecord;

verus! {

/// The telemetry of one flight, one series per quantity. All the series of
/// a value made by [`TelemetryData::from_records`] have one length, and the
/// entries at one index belong to one record.
#[derive(Debug, Clone, PartialEq, Eq)]
pub struct TelemetryData {
    /// Milliseconds since the first record.
    pub time: Vec<i64>,
    /// Latitude.
    pub latitude: Vec<Option<i64>>,
    /// Longitude.
    pub longitude: Vec<Option<i64>>,
    /// Altitude.
    pub altitude: Vec<Option<i64>>,
    /// Height above take-off.
    pub height: Vec<Option<i64>>,
    /// Height that the downward sensors measure.
    pub vps_height: Vec<Option<i64>>,
    /// Ground speed.
    pub speed: Vec<Option<i64>>,
    /// Velocity north.
    pub velocity_x: Vec<Option<i64>>,
    /// Velocity east.
    pub velocity_y: Vec<Option<i64>>,
    /// Velocity down.
    pub velocity_z: Vec<Option<i64>>,
    /// Charge in percent.
    pub battery: Vec<Option<i32>>,
    /// Battery voltage.
    pub battery_voltage: Vec<Option<i64>>,
    /// Battery temperature.
    pub battery_temp: Vec<Option<i64>>,
    /// Voltage of each cell.
    pub cell_voltages: Vec<Option<Vec<i64>>>,
    /// Number of satellites.
    pub satellites: Vec<Option<i32>>,
    /// Strength of the radio link.
    pub rc_signal: Vec<Option<i32>>,
    /// Strength of the uplink.
    pub rc_uplink: Vec<Option<i32>>,
    /// Strength of the downlink.
    pub rc_downlink: Vec<Option<i32>>,
    /// Pitch.
    pub pitch: Vec<Option<i64>>,
    /// Roll.
    pub roll: Vec<Option<i64>>,
    /// Heading.
    pub yaw: Vec<Option<i64>>,
    /// Aileron stick.
    pub rc_aileron: Vec<Option<i64>>,
    /// Elevator stick.
    pub rc_elevator: Vec<Option<i64>>,
    /// Throttle stick.
    pub rc_throttle: Vec<Option<i64>>,
    /// Rudder stick.
    pub rc_rudder: Vec<Option<i64>>,
    /// True while a photo is taken.
    pub is_photo: Vec<Option<bool>>,
    /// True while video is recorded.
    pub is_video: Vec<Option<bool>>,
    /// Flight mode.
    pub flight_mode: Vec<Option<String>>,
}

/// One point of a track: longitude, latitude, height.
#[derive(Debug, Clone, Copy, PartialEq, Eq, Structural)]
pub struct TrackPoint {
    pub longitude: i64,
    pub latitude: i64,
    pub height: i64,
}

/// The cell voltages that a record holds, if it holds any.
pub open spec fn cells_of(cells: Option<Vec<i64>>) -> Option<Seq<i64>> {
    match cells {
        Some(v) => Some(v@),
        None => None,
    }
}

/// A copy of the cell voltages of a record.
pub fn copy_cells(cells: &Option<Vec<i64>>) -> (r: Option<Vec<i64>>)
    ensures
        cells_of(r) == cells_of(*cells),
{
    match cells {
        Some(v) => {
            let c = v.clone();
            assert(c@ =~= v@);
            Some(c)
        },
        None => None,
    }
}

/// Time from `base` to `t`, held within the range of `i64`.
pub open spec fn elapsed(t: i64, base: i64) -> i64 {
    clamp_i64(t - base)
}

/// The time of the first record, or zero where there is none.
pub open spec fn base_time(records: Seq<TelemetryRecord>) -> i64 {
    if records.len() > 0 {
        records[0].timestamp_ms
    } else {
        0
    }
}

impl TelemetryData {
    /// True when the first `n` entries of every series are those of the
    /// first `n` records.
    pub open spec fn holds_upto(&self, records: Seq<TelemetryRecord>, n: int) -> bool {
        &&& self.time@ == Seq::new(n as nat, |k: int| elapsed(records[k].timestamp_ms, base_time(records)))
        &&& self.latitude@ == Seq::new(n as nat, |k: int| records[k].latitude)
        &&& self.longitude@ == Seq::new(n as nat, |k: int| records[k].longitude)
        &&& self.altitude@ == Seq::new(n as nat, |k: int| records[k].altitude)
        &&& self.height@ == Seq::new(n as nat, |k: int| records[k].height)
        &&& self.vps_height@ == Seq::new(n as nat, |k: int| records[k].vps_height)
        &&& self.speed@ == Seq::new(n as nat, |k: int| records[k].speed)
        &&& self.velocity_x@ == Seq::new(n as nat, |k: int| records[k].velocity_x)
        &&& self.velocity_y@ == Seq::new(n as nat, |k: int| records[k].velocity_y)
        &&& self.velocity_z@ == Seq::new(n as nat, |k: int| records[k].velocity_z)
        &&& self.battery@ == Seq::new(n as nat, |k: int| records[k].battery_percent)
        &&& self.battery_voltage@ == Seq::new(n as nat, |k: int| records[k].battery_voltage)
        &&& self.battery_temp@ == Seq::new(n as nat, |k: int| records[k].battery_temp)
        &&& self.cell_voltages@.len() == n
        &&& forall|k: int|
            0 <= k < n ==> cells_of(#[trigger] self.cell_voltages@[k]) == cells_of(
                records[k].cell_voltages,
            )
        &&& self.satellites@ == Seq::new(n as nat, |k: int| records[k].satellites)
        &&& self.rc_signal@ == Seq::new(n as nat, |k: int| records[k].rc_signal)
        &&& self.rc_uplink@ == Seq::new(n as nat, |k: int| records[k].rc_uplink)
        &&& self.rc_downlink@ == Seq::new(n as nat, |k: int| records[k].rc_downlink)
        &&& self.pitch@ == Seq::new(n as nat, |k: int| records[k].pitch)
        &&& self.roll@ == Seq::new(n as nat, |k: int| records[k].roll)
        &&& self.yaw@ == Seq::new(n as nat, |k: int| records[k].yaw)
        &&& self.rc_aileron@ == Seq::new(n as nat, |k: int| records[k].rc_aileron)
        &&& self.rc_elevator@ == Seq::new(n as nat, |k: int| records[k].rc_elevator)
        &&& self.rc_throttle@ == Seq::new(n as nat, |k: int| records[k].rc_throttle)
        &&& self.rc_rudder@ == Seq::new(n as nat, |k: int| records[k].rc_rudder)
        &&& self.is_photo@ == Seq::new(n as nat, |k: int| records[k].is_photo)
        &&& self.is_video@ == Seq::new(n as nat, |k: int| records[k].is_video)
        &&& self.flight_mode@ == Seq::new(n as nat, |k: int| records[k].flight_mode)
    }

    /// True when the series are those of `records`: entry `k` of each
    /// series is the quantity of record `k`, and the time is counted from
    /// the first record.
    pub open spec fn holds(&self, records: Seq<TelemetryRecord>) -> bool {
        self.holds_upto(records, records.len() as int)
    }

    /// Lays out the records as one series per quantity.
    pub fn from_records(records: &Vec<TelemetryRecord>) -> (data: TelemetryData)
        ensures
            data.holds(records@),
            data.time@.len() == records@.len(),
    {
        let base: i64 = if records.len() > 0 {
            records[0].timestamp_ms
        } else {
            0
        };
        let mut data = TelemetryData {
            time: Vec::new(),
            latitude: Vec::new(),
            longitude: Vec::new(),
            altitude: Vec::new(),
            height: Vec::new(),
            vps_height: Vec::new(),
            speed: Vec::new(),
            velocity_x: Vec::new(),
            velocity_y: Vec::new(),
            velocity_z: Vec::new(),
            battery: Vec::new(),
            battery_voltage: Vec::new(),
            battery_temp: Vec::new(),
            cell_voltages: Vec::new(),
            satellites: Vec::new(),
            rc_signal: Vec::new(),
            rc_uplink: Vec::new(),
            rc_downlink: Vec::new(),
            pitch: Vec::new(),
            roll: Vec::new(),
            yaw: Vec::new(),
            rc_aileron: Vec::new(),
            rc_elevator: Vec::new(),
            rc_throttle: Vec::new(),
            rc_rudder: Vec::new(),
            is_photo: Vec::new(),
            is_video: Vec::new(),
            flight_mode: Vec::new(),
        };
        let mut i: usize = 0;
        proof {
            assert(data.time@ =~= Seq::new(0nat, |k: int| elapsed(records@[k].timestamp_ms, base_time(records@))));
            assert(data.latitude@ =~= Seq::new(0nat, |k: int| records@[k].latitude));
            assert(data.longitude@ =~= Seq::new(0nat, |k: int| records@[k].longitude));
            assert(data.altitude@ =~= Seq::new(0nat, |k: int| records@[k].altitude));
            assert(data.height@ =~= Seq::new(0nat, |k: int| records@[k].height));
            assert(data.vps_height@ =~= Seq::new(0nat, |k: int| records@[k].vps_height));
            assert(data.speed@ =~= Seq::new(0nat, |k: int| records@[k].speed));
            assert(data.velocity_x@ =~= Seq::new(0nat, |k: int| records@[k].velocity_x));
            assert(data.velocity_y@ =~= Seq::new(0nat, |k: int| records@[k].velocity_y));
            assert(data.velocity_z@ =~= Seq::new(0nat, |k: int| records@[k].velocity_z));
            assert(data.battery@ =~= Seq::new(0nat, |k: int| records@[k].battery_percent));
            assert(data.battery_voltage@ =~= Seq::new(0nat, |k: int| records@[k].battery_voltage));
            assert(data.battery_temp@ =~= Seq::new(0nat, |k: int| records@[k].battery_temp));
            assert(data.satellites@ =~= Seq::new(0nat, |k: int| records@[k].satellites));
            assert(data.rc_signal@ =~= Seq::new(0nat, |k: int| records@[k].rc_signal));
            assert(data.rc_uplink@ =~= Seq::new(0nat, |k: int| records@[k].rc_uplink));
            assert(data.rc_downlink@ =~= Seq::new(0nat, |k: int| records@[k].rc_downlink));
            assert(data.pitch@ =~= Seq::new(0nat, |k: int| records@[k].pitch));
            assert(data.roll@ =~= Seq::new(0nat, |k: int| records@[k].roll));
            assert(data.yaw@ =~= Seq::new(0nat, |k: int| records@[k].yaw));
            assert(data.rc_aileron@ =~= Seq::new(0nat, |k: int| records@[k].rc_aileron));
            assert(data.rc_elevator@ =~= Seq::new(0nat, |k: int| records@[k].rc_elevator));
            assert(data.rc_throttle@ =~= Seq::new(0nat, |k: int| records@[k].rc_throttle));
            assert(data.rc_rudder@ =~= Seq::new(0nat, |k: int| records@[k].rc_rudder));
            assert(data.is_photo@ =~= Seq::new(0nat, |k: int| records@[k].is_photo));
            assert(data.is_video@ =~= Seq::new(0nat, |k: int| records@[k].is_video));
            assert(data.flight_mode@ =~= Seq::new(0nat, |k: int| records@[k].flight_mode));
        }
        while i < records.len()
            invariant
                i <= records.len(),
                base == base_time(records@),
                data.holds_upto(records@, i as int),
            decreases records.len() - i,
        {
            let r = &records[i];
            let diff: i128 = r.timestamp_ms as i128 - base as i128;
            let t: i64 = if diff < i64::MIN as i128 {
                i64::MIN
            } else if diff > i64::MAX as i128 {
                i64::MAX
            } else {
                diff as i64
            };
            data.time.push(t);
            data.latitude.push(r.latitude);
            data.longitude.push(r.longitude);
            data.altitude.push(r.altitude);
            data.height.push(r.height);
            data.vps_height.push(r.vps_height);
            data.speed.push(r.speed);
            data.velocity_x.push(r.velocity_x);
            data.velocity_y.push(r.velocity_y);
            data.velocity_z.push(r.velocity_z);
            data.battery.push(r.battery_percent);
            data.battery_voltage.push(r.battery_voltage);
            data.battery_temp.push(r.battery_temp);
            data.cell_voltages.push(copy_cells(&r.cell_voltages));
            data.satellites.push(r.satellites);
            data.rc_signal.push(r.rc_signal);
            data.rc_uplink.push(r.rc_uplink);
            data.rc_downlink.push(r.rc_downlink);
            data.pitch.push(r.pitch);
            data.roll.push(r.roll);
            data.yaw.push(r.yaw);
            data.rc_aileron.push(r.rc_aileron);
            data.rc_elevator.push(r.rc_elevator);
            data.rc_throttle.push(r.rc_throttle);
            data.rc_rudder.push(r.rc_rudder);
            data.is_photo.push(r.is_photo);
            data.is_video.push(r.is_video);
            data.flight_mode.push(
                match &r.flight_mode {
                    Some(mode) => Some(mode.clone()),
                    None => None,
                },
            );
            i += 1;
            proof {
                let n = i as int;
                assert(data.time@ =~= Seq::new(n as nat, |k: int| elapsed(records@[k].timestamp_ms, base_time(records@))));
                assert(data.latitude@ =~= Seq::new(n as nat, |k: int| records@[k].latitude));
                assert(data.longitude@ =~= Seq::new(n as nat, |k: int| records@[k].longitude));
                assert(data.altitude@ =~= Seq::new(n as nat, |k: int| records@[k].altitude));
                assert(data.height@ =~= Seq::new(n as nat, |k: int| records@[k].height));
                assert(data.vps_height@ =~= Seq::new(n as nat, |k: int| records@[k].vps_height));
                assert(data.speed@ =~= Seq::new(n as nat, |k: int| records@[k].speed));
                assert(data.velocity_x@ =~= Seq::new(n as nat, |k: int| records@[k].velocity_x));
                assert(data.velocity_y@ =~= Seq::new(n as nat, |k: int| records@[k].velocity_y));
                assert(data.velocity_z@ =~= Seq::new(n as nat, |k: int| records@[k].velocity_z));
                assert(data.battery@ =~= Seq::new(n as nat, |k: int| records@[k].battery_percent));
                assert(data.battery_voltage@ =~= Seq::new(n as nat, |k: int| records@[k].battery_voltage));
                assert(data.battery_temp@ =~= Seq::new(n as nat, |k: int| records@[k].battery_temp));
                assert(data.satellites@ =~= Seq::new(n as nat, |k: int| records@[k].satellites));
                assert(data.rc_signal@ =~= Seq::new(n as nat, |k: int| records@[k].rc_signal));
                assert(data.rc_uplink@ =~= Seq::new(n as nat, |k: int| records@[k].rc_uplink));
                assert(data.rc_downlink@ =~= Seq::new(n as nat, |k: int| records@[k].rc_downlink));
                assert(data.pitch@ =~= Seq::new(n as nat, |k: int| records@[k].pitch));
                assert(data.roll@ =~= Seq::new(n as nat, |k: int| records@[k].roll));
                assert(data.yaw@ =~= Seq::new(n as nat, |k: int| records@[k].yaw));
                assert(data.rc_aileron@ =~= Seq::new(n as nat, |k: int| records@[k].rc_aileron));
                assert(data.rc_elevator@ =~= Seq::new(n as nat, |k: int| records@[k].rc_elevator));
                assert(data.rc_throttle@ =~= Seq::new(n as nat, |k: int| records@[k].rc_throttle));
                assert(data.rc_rudder@ =~= Seq::new(n as nat, |k: int| records@[k].rc_rudder));
                assert(data.is_photo@ =~= Seq::new(n as nat, |k: int| records@[k].is_photo));
                assert(data.is_video@ =~= Seq::new(n as nat, |k: int| records@[k].is_video));
                assert(data.flight_mode@ =~= Seq::new(n as nat, |k: int| records@[k].flight_mode));
            }
        }
        data
    }
}


// ---------------------------------------------------------------------------
// The track on the map
// ---------------------------------------------------------------------------

/// The first of three optional heights that is there, or zero.
pub open spec fn first_height(height: Option<i64>, vps: Option<i64>, altitude: Option<i64>) -> i64 {
    match height {
        Some(h) => h,
        None => match vps {
            Some(v) => v,
            None => match altitude {
                Some(a) => a,
                None => 0,
            },
        },
    }
}

/// True when a position is there and is not the origin, within a millionth
/// of a degree.
pub open spec fn is_on_track(latitude: Option<i64>, longitude: Option<i64>) -> bool {
    latitude is Some && longitude is Some && !(-GPS_EPSILON < latitude->0 < GPS_EPSILON
        && -GPS_EPSILON < longitude->0 < GPS_EPSILON)
}

/// Every `stride`-th element of `s`, the first included.
pub open spec fn every_nth<T>(s: Seq<T>, stride: int) -> Seq<T>
    recommends
        stride > 0,
{
    Seq::new(((s.len() + stride - 1) / stride) as nat, |k: int| s[k * stride])
}

impl TelemetryData {
    /// The number of entries that all the series that a track reads have.
    pub open spec fn track_len(&self) -> int {
        let a = self.latitude@.len();
        let b = self.longitude@.len();
        let c = self.height@.len();
        let d = self.vps_height@.len();
        let e = self.altitude@.len();
        let ab = if a <= b { a } else { b };
        let cd = if c <= d { c } else { d };
        let abcd = if ab <= cd { ab } else { cd };
        if abcd <= e { abcd as int } else { e as int }
    }

    /// The track point of entry `k`.
    pub open spec fn track_point(&self, k: int) -> TrackPoint {
        TrackPoint {
            longitude: self.longitude@[k]->0,
            latitude: self.latitude@[k]->0,
            height: first_height(self.height@[k], self.vps_height@[k], self.altitude@[k]),
        }
    }

    /// The track points of the first `n` entries: one for each entry with a
    /// position that is not the origin.
    pub open spec fn track_upto(&self, n: int) -> Seq<TrackPoint>
        decreases n,
    {
        if n <= 0 {
            Seq::empty()
        } else {
            let before = self.track_upto(n - 1);
            if is_on_track(self.latitude@[n - 1], self.longitude@[n - 1]) {
                before.push(self.track_point(n - 1))
            } else {
                before
            }
        }
    }

    /// The whole track, every position on it.
    pub open spec fn full_track(&self) -> Seq<TrackPoint> {
        self.track_upto(self.track_len())
    }

    /// The step at which a track of `len` points is thinned out so that no
    /// more than `max_points` are left: `len` over `max_points`, rounded
    /// up.
    pub open spec fn track_stride(len: int, max_points: int) -> int {
        (len + max_points - 1) / max_points
    }

    /// The track as the map gets it: the whole track where it has no more
    /// than `max_points` points, else every `n`-th point of it from the
    /// first on, where `n` is [`TelemetryData::track_stride`].
    pub open spec fn track(&self, max_points: int) -> Seq<TrackPoint> {
        let full = self.full_track();
        if full.len() <= max_points {
            full
        } else {
            every_nth(full, Self::track_stride(full.len() as int, max_points))
        }
    }

    /// A track that is thinned out has no more points than were asked
    /// for.
    pub proof fn lemma_thinned_len(len: int, max_points: int)
        requires
            0 < max_points < len,
        ensures
            Self::track_stride(len, max_points) >= 1,
            Self::track_stride(len, max_points) * max_points >= len,
            (len + Self::track_stride(len, max_points) - 1) / Self::track_stride(len, max_points)
                <= max_points,
    {
        let d = Self::track_stride(len, max_points);
        vstd::arithmetic::div_mod::lemma_fundamental_div_mod(len + max_points - 1, max_points);
        let rem = (len + max_points - 1) % max_points;
        assert(0 <= rem < max_points) by {
            vstd::arithmetic::div_mod::lemma_mod_bound(len + max_points - 1, max_points);
        }
        assert(max_points * d == len + max_points - 1 - rem);
        assert(d * max_points == max_points * d) by (nonlinear_arith);
        assert(d * max_points >= len);
        assert(d >= 1) by (nonlinear_arith)
            requires
                d * max_points >= len,
                len > max_points,
                max_points > 0,
        ;
        assert((len + d - 1) / d <= max_points) by (nonlinear_arith)
            requires
                d >= 1,
                d * max_points >= len,
                len > 0,
                max_points > 0,
        ;
    }

    /// Records give no more points of the track than there are records.
    pub proof fn lemma_track_upto_len(&self, n: int)
        ensures
            self.track_upto(n).len() <= if n <= 0 { 0 } else { n },
        decreases n,
    {
        if n > 0 {
            self.lemma_track_upto_len(n - 1);
        }
    }

    /// Projects the telemetry to the positions of the track and thins them
    /// out as [`TelemetryData::track`] says, so that no more than
    /// `max_points` are left. With `max_points` zero only an empty track
    /// can be had.
    pub fn extract_track(&self, max_points: usize) -> (track: Vec<TrackPoint>)
        requires
            max_points > 0 || self.full_track().len() == 0,
        ensures
            track@ == self.track(max_points as int),
            track@.len() <= max_points,
    {
        let mut n: usize = self.latitude.len();
        if self.longitude.len() < n {
            n = self.longitude.len();
        }
        let mut m: usize = self.height.len();
        if self.vps_height.len() < m {
            m = self.vps_height.len();
        }
        if m < n {
            n = m;
        }
        if self.altitude.len() < n {
            n = self.altitude.len();
        }
        assert(n == self.track_len());
        let mut full: Vec<TrackPoint> = Vec::new();
        let mut i: usize = 0;
        while i < n
            invariant
                i <= n,
                n == self.track_len(),
                full@ == self.track_upto(i as int),
            decreases n - i,
        {
            match (self.latitude[i], self.longitude[i]) {
                (Some(lat), Some(lon)) => {
                    if !(-GPS_EPSILON < lat && lat < GPS_EPSILON && -GPS_EPSILON < lon && lon
                        < GPS_EPSILON) {
                        let height = match self.height[i] {
                            Some(h) => h,
                            None => match self.vps_height[i] {
                                Some(v) => v,
                                None => match self.altitude[i] {
                                    Some(a) => a,
                                    None => 0,
                                },
                            },
                        };
                        full.push(TrackPoint { longitude: lon, latitude: lat, height });
                    }
                },
                _ => {},
            }
            i += 1;
        }
        if full.len() <= max_points {
            return full;
        }
        let stride: usize = (full.len() - 1) / max_points + 1;
        proof {
            let len = full.len() as int;
            vstd::arithmetic::div_mod::lemma_div_plus_one(len - 1, max_points as int);
            assert(max_points + (len - 1) == len + max_points - 1);
            assert(stride == Self::track_stride(len, max_points as int));
            Self::lemma_thinned_len(len, max_points as int);
        }
        let count: usize = (full.len() - 1) / stride + 1;
        proof {
            let len = full.len() as int;
            let d = stride as int;
            vstd::arithmetic::div_mod::lemma_div_plus_one(len - 1, d);
            assert((len + d - 1) / d == count) by {
                assert(d + (len - 1) == len + d - 1);
            }
            vstd::arithmetic::div_mod::lemma_remainder_lower(len - 1, d);
            assert((count - 1) * d <= len - 1);
        }
        let mut thinned: Vec<TrackPoint> = Vec::new();
        let mut k: usize = 0;
        while k < count
            invariant
                k <= count,
                stride >= 1,
                (count - 1) * stride <= full.len() - 1,
                thinned@ == Seq::new(k as nat, |j: int| full@[j * stride]),
            decreases count - k,
        {
            proof {
                vstd::arithmetic::mul::lemma_mul_inequality(k as int, count - 1, stride as int);
                assert(k * stride >= 0) by (nonlinear_arith)
                    requires
                        k >= 0,
                        stride >= 1,
                ;
            }
            let at: usize = k * stride;
            thinned.push(full[at]);
            k += 1;
            proof {
                assert(thinned@ =~= Seq::new(k as nat, |j: int| full@[j * stride]));
            }
        }
        proof {
            assert(thinned@ =~= every_nth(full@, stride as int));
        }
        thinned
    }
}

} // verus!
