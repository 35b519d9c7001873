//! Vectorized record data, lap summaries, and parsing statistics derived
//! from one decoded FIT stream.

use vstd::prelude::*;

use crate::fit_decoder::{
    DecodeError, Field, FitDecoder, FitLap, FitRecord, sorted_by_timestamp, spec_parse_messages,
    spec_parse_start,
};
use crate::validator::{spec_validate, SecurityValidator, ValidationError};

verus! {

/// Why a blob could not be parsed at all.
#[derive(Clone, Copy, Debug, PartialEq, Eq, Structural)]
pub enum ParseError {
    Validation(ValidationError),
    Decode(DecodeError),
}

/// Per-sample arrays, all of one length.  Units: seconds, watts,
/// millimeters per second, semicircles, centimeters.  A field a record
/// did not carry is zero; arrays the decoder never fills (developer air
/// and wind speeds, battery, heart rate, cadence, temperature) are zero
/// throughout.
pub struct FitData {
    pub timestamps: Vec<u64>,
    pub power: Vec<u16>,
    pub velocity: Vec<u16>,
    pub position_lat: Vec<i32>,
    pub position_long: Vec<i32>,
    pub altitude: Vec<i64>,
    pub distance: Vec<u32>,
    pub air_speed: Vec<u16>,
    pub wind_speed: Vec<u16>,
    pub battery_soc: Vec<u16>,
    pub heart_rate: Vec<u16>,
    pub cadence: Vec<u16>,
    pub temperature: Vec<i16>,
}

impl FitData {
    /// All arrays carry one entry per record.
    pub open spec fn wf(self) -> bool {
        &&& self.power@.len() == self.timestamps@.len()
        &&& self.velocity@.len() == self.timestamps@.len()
        &&& self.position_lat@.len() == self.timestamps@.len()
        &&& self.position_long@.len() == self.timestamps@.len()
        &&& self.altitude@.len() == self.timestamps@.len()
        &&& self.distance@.len() == self.timestamps@.len()
        &&& self.air_speed@.len() == self.timestamps@.len()
        &&& self.wind_speed@.len() == self.timestamps@.len()
        &&& self.battery_soc@.len() == self.timestamps@.len()
        &&& self.heart_rate@.len() == self.timestamps@.len()
        &&& self.cadence@.len() == self.timestamps@.len()
        &&& self.temperature@.len() == self.timestamps@.len()
    }

    /// Unix seconds of each sample.
    pub fn timestamps(&self) -> (r: &Vec<u64>)
        ensures
            r@ == self.timestamps@,
    {
        &self.timestamps
    }

    /// Watts of each sample; zero where absent.
    pub fn power(&self) -> (r: &Vec<u16>)
        ensures
            r@ == self.power@,
    {
        &self.power
    }

    /// Ground speed in millimeters per second; zero where absent.
    pub fn velocity(&self) -> (r: &Vec<u16>)
        ensures
            r@ == self.velocity@,
    {
        &self.velocity
    }

    /// Latitude in semicircles; zero where absent.
    pub fn position_lat(&self) -> (r: &Vec<i32>)
        ensures
            r@ == self.position_lat@,
    {
        &self.position_lat
    }

    /// Longitude in semicircles; zero where absent.
    pub fn position_long(&self) -> (r: &Vec<i32>)
        ensures
            r@ == self.position_long@,
    {
        &self.position_long
    }

    /// Altitude in centimeters; zero where absent.
    pub fn altitude(&self) -> (r: &Vec<i64>)
        ensures
            r@ == self.altitude@,
    {
        &self.altitude
    }

    /// Replaces the altitude array, for elevation-model correction.
    pub fn set_altitude(&mut self, altitude: Vec<i64>)
        ensures
            final(self).altitude@ == altitude@,
            final(self).timestamps@ == old(self).timestamps@,
            final(self).power@ == old(self).power@,
            final(self).velocity@ == old(self).velocity@,
            final(self).position_lat@ == old(self).position_lat@,
            final(self).position_long@ == old(self).position_long@,
            final(self).distance@ == old(self).distance@,
            final(self).air_speed@ == old(self).air_speed@,
            final(self).wind_speed@ == old(self).wind_speed@,
            final(self).battery_soc@ == old(self).battery_soc@,
            final(self).heart_rate@ == old(self).heart_rate@,
            final(self).cadence@ == old(self).cadence@,
            final(self).temperature@ == old(self).temperature@,
    {
        self.altitude = altitude;
    }

    /// Cumulative distance in centimeters; zero where absent.
    pub fn distance(&self) -> (r: &Vec<u32>)
        ensures
            r@ == self.distance@,
    {
        &self.distance
    }

    /// Developer air speed in millimeters per second; zero throughout.
    pub fn air_speed(&self) -> (r: &Vec<u16>)
        ensures
            r@ == self.air_speed@,
    {
        &self.air_speed
    }

    /// Developer wind speed in millimeters per second; zero throughout.
    pub fn wind_speed(&self) -> (r: &Vec<u16>)
        ensures
            r@ == self.wind_speed@,
    {
        &self.wind_speed
    }

    /// Battery state of charge; zero throughout.
    pub fn battery_soc(&self) -> (r: &Vec<u16>)
        ensures
            r@ == self.battery_soc@,
    {
        &self.battery_soc
    }

    /// Heart rate; zero throughout.
    pub fn heart_rate(&self) -> (r: &Vec<u16>)
        ensures
            r@ == self.heart_rate@,
    {
        &self.heart_rate
    }

    /// Cadence; zero throughout.
    pub fn cadence(&self) -> (r: &Vec<u16>)
        ensures
            r@ == self.cadence@,
    {
        &self.cadence
    }

    /// Temperature; zero throughout.
    pub fn temperature(&self) -> (r: &Vec<i16>)
        ensures
            r@ == self.temperature@,
    {
        &self.temperature
    }

    /// How many samples the arrays hold.
    pub fn record_count(&self) -> (r: usize)
        ensures
            r == self.timestamps@.len(),
    {
        self.timestamps.len()
    }
}

/// One lap summary.  Times in Unix milliseconds, elapsed time in
/// milliseconds, distance in centimeters, speeds in millimeters per
/// second, power in watts, positions in semicircles (zero where absent).
#[derive(Clone, Copy, Debug, PartialEq, Eq, Structural)]
pub struct LapData {
    pub start_time: u64,
    pub end_time: u64,
    pub total_elapsed_time: u32,
    pub total_distance: u32,
    pub avg_power: u16,
    pub avg_speed: u16,
    pub max_speed: u16,
    pub start_position_lat: i32,
    pub start_position_long: i32,
}

impl LapData {
    pub fn start_time(&self) -> (r: u64)
        ensures
            r == self.start_time,
    {
        self.start_time
    }

    pub fn end_time(&self) -> (r: u64)
        ensures
            r == self.end_time,
    {
        self.end_time
    }

    pub fn total_elapsed_time(&self) -> (r: u32)
        ensures
            r == self.total_elapsed_time,
    {
        self.total_elapsed_time
    }

    pub fn total_distance(&self) -> (r: u32)
        ensures
            r == self.total_distance,
    {
        self.total_distance
    }

    pub fn avg_power(&self) -> (r: u16)
        ensures
            r == self.avg_power,
    {
        self.avg_power
    }

    pub fn avg_speed(&self) -> (r: u16)
        ensures
            r == self.avg_speed,
    {
        self.avg_speed
    }

    pub fn max_speed(&self) -> (r: u16)
        ensures
            r == self.max_speed,
    {
        self.max_speed
    }

    pub fn start_position_lat(&self) -> (r: i32)
        ensures
            r == self.start_position_lat,
    {
        self.start_position_lat
    }

    pub fn start_position_long(&self) -> (r: i32)
        ensures
            r == self.start_position_long,
    {
        self.start_position_long
    }
}

/// Aggregates over one parsed file.  `duration_seconds` is in seconds,
/// `total_distance_cm` in centimeters, `avg_power_mw` in milliwatts,
/// `max_power` in watts, `avg_speed_um_s` in micrometers per second,
/// `max_speed_mm_s` in millimeters per second.
#[derive(Clone, Copy, Debug, PartialEq, Eq, Structural)]
pub struct ParsingStatistics {
    pub file_size: usize,
    pub record_count: usize,
    pub lap_count: usize,
    pub has_power_data: bool,
    pub has_gps_data: bool,
    pub duration_seconds: u64,
    pub total_distance_cm: i64,
    pub avg_power_mw: u64,
    pub max_power_w: u16,
    pub avg_speed_um_s: u64,
    pub max_speed_mm_s: u16,
}

impl ParsingStatistics {
    pub fn file_size(&self) -> (r: usize)
        ensures
            r == self.file_size,
    {
        self.file_size
    }

    pub fn record_count(&self) -> (r: usize)
        ensures
            r == self.record_count,
    {
        self.record_count
    }

    pub fn lap_count(&self) -> (r: usize)
        ensures
            r == self.lap_count,
    {
        self.lap_count
    }

    /// Whether any sample carries power above zero watts.
    pub fn has_power_data(&self) -> (r: bool)
        ensures
            r == self.has_power_data,
    {
        self.has_power_data
    }

    /// Whether any sample carries a nonzero latitude.
    pub fn has_gps_data(&self) -> (r: bool)
        ensures
            r == self.has_gps_data,
    {
        self.has_gps_data
    }

    /// Last timestamp minus first, in seconds.
    pub fn duration_seconds(&self) -> (r: u64)
        ensures
            r == self.duration_seconds,
    {
        self.duration_seconds
    }

    /// Last distance minus first, in whole meters (centimeter total
    /// divided by one hundred, toward zero).
    pub fn total_distance_m(&self) -> (r: i64)
        ensures
            self.total_distance_cm >= 0 ==> r == self.total_distance_cm / 100,
            self.total_distance_cm < 0 ==> r == -((-self.total_distance_cm) / 100),
    {
        if self.total_distance_cm >= 0 {
            self.total_distance_cm / 100
        } else {
            let magnitude = (-(self.total_distance_cm as i128)) as u128;
            let quotient = (magnitude / 100) as i64;
            -quotient
        }
    }

    /// Average of the strictly positive power samples, in milliwatts.
    pub fn avg_power(&self) -> (r: u64)
        ensures
            r == self.avg_power_mw,
    {
        self.avg_power_mw
    }

    /// Largest power sample, in watts.
    pub fn max_power(&self) -> (r: u16)
        ensures
            r == self.max_power_w,
    {
        self.max_power_w
    }

    /// Average ground speed over all samples, in micrometers per second.
    pub fn avg_speed_ms(&self) -> (r: u64)
        ensures
            r == self.avg_speed_um_s,
    {
        self.avg_speed_um_s
    }

    /// Largest ground speed sample, in millimeters per second.
    pub fn max_speed_ms(&self) -> (r: u16)
        ensures
            r == self.max_speed_mm_s,
    {
        self.max_speed_mm_s
    }
}

/// Everything one parse yields.
pub struct ParsedFitFile {
    pub fit_data: FitData,
    pub laps: Vec<LapData>,
    pub parsing_statistics: ParsingStatistics,
}

impl ParsedFitFile {
    pub fn fit_data(&self) -> (r: &FitData)
        ensures
            r == &self.fit_data,
    {
        &self.fit_data
    }

    pub fn laps(&self) -> (r: &Vec<LapData>)
        ensures
            r@ == self.laps@,
    {
        &self.laps
    }

    pub fn parsing_statistics(&self) -> (r: &ParsingStatistics)
        ensures
            r == &self.parsing_statistics,
    {
        &self.parsing_statistics
    }
}

/// Holds when the values never decrease from left to right.
pub open spec fn nondecreasing_u64(s: Seq<u64>) -> bool {
    forall|i: int, j: int| 0 <= i < j < s.len() ==> s[i] <= s[j]
}

/// Sum of the strictly positive entries.
pub open spec fn seq_sum_pos_u16(s: Seq<u16>) -> int
    decreases s.len(),
{
    if s.len() == 0 {
        0
    } else {
        seq_sum_pos_u16(s.drop_last()) + if s.last() > 0 {
            s.last() as int
        } else {
            0
        }
    }
}

/// How many entries are strictly positive.
pub open spec fn seq_count_pos_u16(s: Seq<u16>) -> int
    decreases s.len(),
{
    if s.len() == 0 {
        0
    } else {
        seq_count_pos_u16(s.drop_last()) + if s.last() > 0 {
            1int
        } else {
            0int
        }
    }
}

/// Sum of all entries.
pub open spec fn seq_sum_u16(s: Seq<u16>) -> int
    decreases s.len(),
{
    if s.len() == 0 {
        0
    } else {
        seq_sum_u16(s.drop_last()) + s.last() as int
    }
}

/// Largest entry, or zero for an empty sequence.
pub open spec fn seq_max_u16(s: Seq<u16>) -> u16
    decreases s.len(),
{
    if s.len() == 0 {
        0u16
    } else if s.last() > seq_max_u16(s.drop_last()) {
        s.last()
    } else {
        seq_max_u16(s.drop_last())
    }
}

/// The watts a record carries, or zero.
pub open spec fn rec_power(r: FitRecord) -> u16 {
    match r.power {
        Some(p) => p,
        None => 0,
    }
}

/// The speed a record carries, or zero.
pub open spec fn rec_velocity(r: FitRecord) -> u16 {
    match r.speed {
        Some(s) => s,
        None => 0,
    }
}

/// The latitude a record carries, or zero.
pub open spec fn rec_lat(r: FitRecord) -> i32 {
    match r.position_lat {
        Some(x) => x,
        None => 0,
    }
}

/// The longitude a record carries, or zero.
pub open spec fn rec_long(r: FitRecord) -> i32 {
    match r.position_long {
        Some(x) => x,
        None => 0,
    }
}

/// The altitude a record carries, or zero.
pub open spec fn rec_altitude(r: FitRecord) -> i64 {
    match r.altitude {
        Some(a) => a,
        None => 0,
    }
}

/// The distance a record carries, or zero.
pub open spec fn rec_distance(r: FitRecord) -> u32 {
    match r.distance {
        Some(d) => d,
        None => 0,
    }
}

fn zeros_u16(n: usize) -> (r: Vec<u16>)
    ensures
        r@.len() == n,
        forall|i: int| 0 <= i < n ==> r@[i] == 0,
{
    let mut v: Vec<u16> = Vec::new();
    let mut i: usize = 0;
    while i < n
        invariant
            i <= n,
            v@.len() == i,
            forall|j: int| 0 <= j < i ==> v@[j] == 0,
        decreases n - i,
    {
        v.push(0);
        i = i + 1;
    }
    v
}

fn zeros_i16(n: usize) -> (r: Vec<i16>)
    ensures
        r@.len() == n,
        forall|i: int| 0 <= i < n ==> r@[i] == 0,
{
    let mut v: Vec<i16> = Vec::new();
    let mut i: usize = 0;
    while i < n
        invariant
            i <= n,
            v@.len() == i,
            forall|j: int| 0 <= j < i ==> v@[j] == 0,
        decreases n - i,
    {
        v.push(0);
        i = i + 1;
    }
    v
}

/// Validates a blob, decodes it, and lays the records out as equal-length
/// arrays with aggregate statistics.  Succeeds exactly when validation
/// does; the decoder itself recovers from damaged stretches.
/// The lap summary published for one decoded lap: the same numbers,
/// with absent positions as zero.
pub open spec fn lap_data_of(l: FitLap) -> LapData {
    LapData {
        start_time: l.start_time,
        end_time: l.end_time,
        total_elapsed_time: l.total_elapsed_time,
        total_distance: l.total_distance,
        avg_power: l.avg_power,
        avg_speed: l.avg_speed,
        max_speed: l.max_speed,
        start_position_lat: match l.start_position_lat {
            Some(x) => x,
            None => 0,
        },
        start_position_long: match l.start_position_long {
            Some(x) => x,
            None => 0,
        },
    }
}

/// The definition table a fresh decoder starts with: nothing installed.
pub open spec fn fresh_defs() -> Seq<Option<(u16, Seq<Field>)>> {
    Seq::new(16, |i: int| None)
}

/// The arrays hold, sample by sample, the fields of the records in `s`,
/// absent fields as zero.
pub open spec fn arrays_project(fd: FitData, s: Seq<FitRecord>) -> bool {
    &&& fd.timestamps@.len() == s.len()
    &&& forall|j: int| 0 <= j < s.len() ==> fd.timestamps@[j] == (#[trigger] s[j]).timestamp
    &&& forall|j: int| 0 <= j < s.len() ==> fd.power@[j] == rec_power(#[trigger] s[j])
    &&& forall|j: int| 0 <= j < s.len() ==> fd.velocity@[j] == rec_velocity(#[trigger] s[j])
    &&& forall|j: int| 0 <= j < s.len() ==> fd.position_lat@[j] == rec_lat(#[trigger] s[j])
    &&& forall|j: int| 0 <= j < s.len() ==> fd.position_long@[j] == rec_long(#[trigger] s[j])
    &&& forall|j: int| 0 <= j < s.len() ==> fd.altitude@[j] == rec_altitude(#[trigger] s[j])
    &&& forall|j: int| 0 <= j < s.len() ==> fd.distance@[j] == rec_distance(#[trigger] s[j])
}

/// Everything a successful parse promises about its result: the arrays
/// are the per-field projection of exactly the records the stream
/// encodes, sorted by time; the laps are the stream's laps in order;
/// and the statistics are exact functions of the arrays.
pub open spec fn parsed_file_consistent(p: ParsedFitFile, data: Seq<u8>) -> bool {
    let n = p.fit_data.timestamps@.len();
    let stats = p.parsing_statistics;
    &&& p.fit_data.wf()
    &&& stats.file_size == data.len()
    &&& stats.record_count == n
    &&& stats.lap_count == p.laps@.len()
    &&& nondecreasing_u64(p.fit_data.timestamps@)
    &&& (stats.has_power_data <==> exists|i: int| 0 <= i < n && p.fit_data.power@[i] > 0)
    &&& (stats.has_gps_data <==> exists|i: int| 0 <= i < n && p.fit_data.position_lat@[i] != 0)
    &&& stats.duration_seconds == if n > 0 {
        p.fit_data.timestamps@[n as int - 1] - p.fit_data.timestamps@[0]
    } else {
        0int
    }
    &&& stats.total_distance_cm == if n > 0 {
        p.fit_data.distance@[n as int - 1] - p.fit_data.distance@[0]
    } else {
        0int
    }
    &&& stats.max_power_w == seq_max_u16(p.fit_data.power@)
    &&& stats.max_speed_mm_s == seq_max_u16(p.fit_data.velocity@)
    &&& stats.avg_power_mw == if seq_count_pos_u16(p.fit_data.power@) > 0 {
        seq_sum_pos_u16(p.fit_data.power@) * 1000 / seq_count_pos_u16(p.fit_data.power@)
    } else {
        0int
    }
    &&& stats.avg_speed_um_s == if n > 0 {
        seq_sum_u16(p.fit_data.velocity@) * 1000 / n as int
    } else {
        0int
    }
    &&& forall|i: int|
        0 <= i < p.laps@.len() ==> (#[trigger] p.laps@[i]).end_time == p.laps@[i].start_time
            + p.laps@[i].total_elapsed_time
    &&& ({
        let full = spec_parse_messages(data, spec_parse_start(data), fresh_defs());
        &&& exists|s: Seq<FitRecord>|
            {
                &&& (#[trigger] s.to_multiset()) == full.0.to_multiset()
                &&& s.len() == full.0.len()
                &&& sorted_by_timestamp(s)
                &&& arrays_project(p.fit_data, s)
            }
        &&& p.laps@.len() == full.1.len()
        &&& forall|i: int|
            0 <= i < p.laps@.len() ==> p.laps@[i] == lap_data_of(#[trigger] full.1[i])
    })
}

#[verifier::rlimit(60)]
pub fn parse_fit_file(file_data: &[u8]) -> (r: Result<ParsedFitFile, ParseError>)
    ensures
        r is Ok <==> spec_validate(file_data@) is Ok,
        r is Err ==> r->Err_0 == ParseError::Validation(spec_validate(file_data@)->Err_0),
        r is Ok ==> parsed_file_consistent(r->Ok_0, file_data@),
{
    let validator = SecurityValidator::new();
    match validator.validate_fit_data(file_data) {
        Ok(()) => {},
        Err(e) => {
            return Err(ParseError::Validation(e));
        },
    }
    let owned = vstd::slice::slice_to_vec(file_data);
    let mut decoder = match FitDecoder::new(owned) {
        Ok(d) => d,
        Err(e) => {
            // A validated blob satisfies everything the decoder checks,
            // so this arm is provably never taken.
            proof {
                assert(false);
            }
            return Err(ParseError::Decode(e));
        },
    };
    let ghost predec_data = decoder.spec_data();
    let ghost predec_defs = decoder.spec_defs();
    let (records, fit_laps) = match decoder.parse() {
        Ok(p) => p,
        Err(e) => {
            // The decoder recovers from every message-level fault, so
            // this arm is provably never taken.
            proof {
                assert(false);
            }
            return Err(ParseError::Decode(e));
        },
    };

    let n = records.len();
    let mut timestamps: Vec<u64> = Vec::new();
    let mut power: Vec<u16> = Vec::new();
    let mut velocity: Vec<u16> = Vec::new();
    let mut position_lat: Vec<i32> = Vec::new();
    let mut position_long: Vec<i32> = Vec::new();
    let mut altitude: Vec<i64> = Vec::new();
    let mut distance: Vec<u32> = Vec::new();
    let mut i: usize = 0;
    while i < n
        invariant
            i <= n,
            n == records@.len(),
            sorted_by_timestamp(records@),
            timestamps@.len() == i,
            power@.len() == i,
            velocity@.len() == i,
            position_lat@.len() == i,
            position_long@.len() == i,
            altitude@.len() == i,
            distance@.len() == i,
            forall|j: int| 0 <= j < i ==> timestamps@[j] == (#[trigger] records@[j]).timestamp,
            forall|j: int| 0 <= j < i ==> power@[j] == rec_power(#[trigger] records@[j]),
            forall|j: int| 0 <= j < i ==> velocity@[j] == rec_velocity(#[trigger] records@[j]),
            forall|j: int| 0 <= j < i ==> position_lat@[j] == rec_lat(#[trigger] records@[j]),
            forall|j: int| 0 <= j < i ==> position_long@[j] == rec_long(#[trigger] records@[j]),
            forall|j: int| 0 <= j < i ==> altitude@[j] == rec_altitude(#[trigger] records@[j]),
            forall|j: int| 0 <= j < i ==> distance@[j] == rec_distance(#[trigger] records@[j]),
        decreases n - i,
    {
        let rec = records[i];
        timestamps.push(rec.timestamp);
        power.push(match rec.power {
            Some(p) => p,
            None => 0,
        });
        velocity.push(match rec.speed {
            Some(s) => s,
            None => 0,
        });
        position_lat.push(match rec.position_lat {
            Some(x) => x,
            None => 0,
        });
        position_long.push(match rec.position_long {
            Some(x) => x,
            None => 0,
        });
        altitude.push(match rec.altitude {
            Some(a) => a,
            None => 0,
        });
        distance.push(match rec.distance {
            Some(d) => d,
            None => 0,
        });
        i = i + 1;
    }

    proof {
        assert forall|a: int, b: int|
            0 <= a < b < timestamps@.len() implies timestamps@[a] <= timestamps@[b] by {
            assert(timestamps@[a] == records@[a].timestamp);
            assert(timestamps@[b] == records@[b].timestamp);
            assert(records@[a].timestamp <= records@[b].timestamp);
        }
        assert(nondecreasing_u64(timestamps@));
    }

    let mut laps: Vec<LapData> = Vec::new();
    let mut k: usize = 0;
    while k < fit_laps.len()
        invariant
            k <= fit_laps@.len(),
            laps@.len() == k,
            forall|i2: int|
                0 <= i2 < fit_laps@.len() ==> (#[trigger] fit_laps@[i2]).end_time
                    == fit_laps@[i2].start_time + fit_laps@[i2].total_elapsed_time,
            forall|i2: int|
                0 <= i2 < k ==> (#[trigger] laps@[i2]).end_time == laps@[i2].start_time
                    + laps@[i2].total_elapsed_time,
            forall|i2: int| 0 <= i2 < k ==> laps@[i2] == lap_data_of(#[trigger] fit_laps@[i2]),
        decreases fit_laps@.len() - k,
    {
        let fl: FitLap = fit_laps[k];
        laps.push(
            LapData {
                start_time: fl.start_time,
                end_time: fl.end_time,
                total_elapsed_time: fl.total_elapsed_time,
                total_distance: fl.total_distance,
                avg_power: fl.avg_power,
                avg_speed: fl.avg_speed,
                max_speed: fl.max_speed,
                start_position_lat: match fl.start_position_lat {
                    Some(x) => x,
                    None => 0,
                },
                start_position_long: match fl.start_position_long {
                    Some(x) => x,
                    None => 0,
                },
            },
        );
        k = k + 1;
    }

    // Aggregates over the freshly built arrays.
    let mut sum_pos_power: u64 = 0;
    let mut count_pos_power: u64 = 0;
    let mut max_power_w: u16 = 0;
    let mut sum_velocity: u64 = 0;
    let mut max_speed_mm_s: u16 = 0;
    let mut has_gps_data = false;
    let mut s: usize = 0;
    while s < n
        invariant
            s <= n,
            n == timestamps@.len(),
            power@.len() == n,
            velocity@.len() == n,
            position_lat@.len() == n,
            sum_pos_power == seq_sum_pos_u16(power@.take(s as int)),
            count_pos_power == seq_count_pos_u16(power@.take(s as int)),
            max_power_w == seq_max_u16(power@.take(s as int)),
            sum_velocity == seq_sum_u16(velocity@.take(s as int)),
            max_speed_mm_s == seq_max_u16(velocity@.take(s as int)),
            sum_pos_power <= 0xFFFF * s,
            count_pos_power <= s,
            sum_velocity <= 0xFFFF * s,
            n <= 50_000_000,
            (has_gps_data <==> exists|j: int| 0 <= j < s && position_lat@[j] != 0),
        decreases n - s,
    {
        proof {
            assert(power@.take(s as int + 1).drop_last() =~= power@.take(s as int));
            assert(velocity@.take(s as int + 1).drop_last() =~= velocity@.take(s as int));
            assert(power@.take(s as int + 1).last() == power@[s as int]);
            assert(velocity@.take(s as int + 1).last() == velocity@[s as int]);
        }
        let p = power[s];
        if p > 0 {
            sum_pos_power = sum_pos_power + p as u64;
            count_pos_power = count_pos_power + 1;
        }
        if p > max_power_w {
            max_power_w = p;
        }
        let v = velocity[s];
        sum_velocity = sum_velocity + v as u64;
        if v > max_speed_mm_s {
            max_speed_mm_s = v;
        }
        if position_lat[s] != 0 {
            has_gps_data = true;
        }
        s = s + 1;
    }
    proof {
        assert(power@.take(n as int) =~= power@);
        assert(velocity@.take(n as int) =~= velocity@);
    }

    let has_power_data = count_pos_power > 0;
    proof {
        lemma_count_pos_iff_exists(power@);
    }

    let duration_seconds: u64 = if n > 0 {
        proof {
            assert(timestamps@[0] <= timestamps@[n as int - 1]) by {
                assert(records@[0].timestamp <= records@[n as int - 1].timestamp);
            }
        }
        timestamps[n - 1] - timestamps[0]
    } else {
        0
    };
    let total_distance_cm: i64 = if n > 0 {
        distance[n - 1] as i64 - distance[0] as i64
    } else {
        0
    };
    let avg_power_mw: u64 = if count_pos_power > 0 {
        sum_pos_power * 1000 / count_pos_power
    } else {
        0
    };
    let avg_speed_um_s: u64 = if n > 0 {
        sum_velocity * 1000 / (n as u64)
    } else {
        0
    };

    let parsing_statistics = ParsingStatistics {
        file_size: file_data.len(),
        record_count: n,
        lap_count: laps.len(),
        has_power_data,
        has_gps_data,
        duration_seconds,
        total_distance_cm,
        avg_power_mw,
        max_power_w,
        avg_speed_um_s,
        max_speed_mm_s,
    };

    let fit_data = FitData {
        timestamps,
        power,
        velocity,
        position_lat,
        position_long,
        altitude,
        distance,
        air_speed: zeros_u16(n),
        wind_speed: zeros_u16(n),
        battery_soc: zeros_u16(n),
        heart_rate: zeros_u16(n),
        cadence: zeros_u16(n),
        temperature: zeros_i16(n),
    };

    let parsed = ParsedFitFile { fit_data, laps, parsing_statistics };
    proof {
        assert(predec_defs =~~= fresh_defs());
        let full = spec_parse_messages(file_data@, spec_parse_start(file_data@), fresh_defs());
        assert(spec_parse_messages(
            predec_data,
            spec_parse_start(predec_data),
            predec_defs,
        ) == full);
        assert(arrays_project(parsed.fit_data, records@));
        assert(exists|s: Seq<FitRecord>|
            {
                &&& (#[trigger] s.to_multiset()) == full.0.to_multiset()
                &&& s.len() == full.0.len()
                &&& sorted_by_timestamp(s)
                &&& arrays_project(parsed.fit_data, s)
            }) by {
            assert({
                &&& records@.to_multiset() == full.0.to_multiset()
                &&& records@.len() == full.0.len()
                &&& sorted_by_timestamp(records@)
                &&& arrays_project(parsed.fit_data, records@)
            });
        }
        assert(parsed.laps@.len() == full.1.len());
        assert(forall|i: int|
            0 <= i < parsed.laps@.len() ==> parsed.laps@[i] == lap_data_of(
                #[trigger] full.1[i],
            ));
        assert(parsed.fit_data.wf());
        assert(parsed.parsing_statistics.max_power_w == seq_max_u16(parsed.fit_data.power@));
        assert(parsed.parsing_statistics.avg_power_mw == if seq_count_pos_u16(
            parsed.fit_data.power@,
        ) > 0 {
            seq_sum_pos_u16(parsed.fit_data.power@) * 1000 / seq_count_pos_u16(
                parsed.fit_data.power@,
            )
        } else {
            0int
        });
        assert(parsed_file_consistent(parsed, file_data@));
    }
    Ok(parsed)
}

/// The positive-power count is nonzero exactly when some entry is
/// strictly positive.
proof fn lemma_count_pos_iff_exists(s: Seq<u16>)
    ensures
        seq_count_pos_u16(s) > 0 <==> exists|i: int| 0 <= i < s.len() && s[i] > 0,
        seq_count_pos_u16(s) >= 0,
    decreases s.len(),
{
    if s.len() == 0 {
    } else {
        lemma_count_pos_iff_exists(s.drop_last());
        if s.last() > 0 {
            assert(s[s.len() - 1] > 0);
        } else {
            if exists|i: int| 0 <= i < s.len() && s[i] > 0 {
                let i = choose|i: int| 0 <= i < s.len() && s[i] > 0;
                assert(i < s.len() - 1);
                assert(s.drop_last()[i] > 0);
            }
        }
    }
}

} // verus!
