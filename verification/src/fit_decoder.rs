//! A decoder for the Garmin FIT container: framing, per-local-type field
//! definitions, field extraction with sentinel handling, and record / lap
//! assembly, all over exact integer units.

use vstd::prelude::*;
use vstd::multiset::Multiset;

use crate::fit_values::{
    FieldValue, FIT_TIME_EPOCH, spec_as_altitude_cm, spec_as_distance, spec_as_duration,
    spec_as_position, spec_as_power, spec_as_speed, spec_as_timestamp,
};
use crate::validator::has_fit_signature;
use crate::wire::{le_u16_val, le_u32_val, read_i16_le, read_i32_le, read_u16_le, read_u32_le,
    sint8_of, u8_as_i8_value};

verus! {

pub const GLOBAL_MESSAGE_RECORD: u16 = 20;
pub const GLOBAL_MESSAGE_LAP: u16 = 19;

pub const FIELD_TIMESTAMP: u8 = 253;
pub const FIELD_POSITION_LAT: u8 = 0;
pub const FIELD_POSITION_LONG: u8 = 1;
pub const FIELD_ALTITUDE: u8 = 2;
pub const FIELD_ENHANCED_ALTITUDE: u8 = 78;
pub const FIELD_SPEED: u8 = 6;
pub const FIELD_ENHANCED_SPEED: u8 = 73;
pub const FIELD_POWER: u8 = 7;
pub const FIELD_DISTANCE: u8 = 5;

pub const FIELD_LAP_START_TIME: u8 = 2;
pub const FIELD_LAP_TOTAL_ELAPSED_TIME: u8 = 7;
pub const FIELD_LAP_TOTAL_DISTANCE: u8 = 9;
pub const FIELD_LAP_AVG_SPEED: u8 = 14;
pub const FIELD_LAP_MAX_SPEED: u8 = 15;
pub const FIELD_LAP_AVG_POWER: u8 = 21;
pub const FIELD_LAP_START_POSITION_LAT: u8 = 3;
pub const FIELD_LAP_START_POSITION_LONG: u8 = 4;

/// Why a blob was refused, or why one message could not be read.  Message
/// level errors are recovered by a one-byte resynchronization.
#[derive(Clone, Copy, Debug, PartialEq, Eq, Structural)]
pub enum DecodeError {
    /// Fewer than twelve bytes in the blob.
    TooSmall,
    /// Bytes eight through eleven are not `.FIT`.
    BadSignature,
    /// The declared header size is under twelve or past the end.
    BadHeaderSize,
    /// Fewer than five bytes remain for a definition message header.
    DefinitionHeaderTruncated,
    /// A definition message declares more than one hundred fields.
    FieldCountTooLarge,
    /// The declared field definitions run past the end of the blob.
    DefinitionFieldsTruncated,
    /// A data message arrived for a local type with no definition.
    UndefinedLocalType,
    /// A field read would run past the end of the blob.
    FieldDataTruncated,
}

/// One field slot of a definition message.
#[derive(Clone, Copy, Debug, PartialEq, Eq, Structural)]
pub struct Field {
    pub field_number: u8,
    pub size: u8,
    pub base_type: u8,
}

/// The layout a definition message declared for one local message type.
#[derive(Debug)]
pub struct FieldDefinition {
    pub message_type: u16,
    pub fields: Vec<Field>,
}

/// One record sample.  Units: `timestamp` in Unix seconds, `distance` in
/// centimeters, positions in semicircles, `altitude` in centimeters,
/// `speed` in millimeters per second, `power` in watts.
#[derive(Clone, Copy, Debug, PartialEq, Eq, Structural)]
pub struct FitRecord {
    pub timestamp: u64,
    pub distance: Option<u32>,
    pub position_lat: Option<i32>,
    pub position_long: Option<i32>,
    pub altitude: Option<i64>,
    pub speed: Option<u16>,
    pub power: Option<u16>,
}

/// One lap.  Units: `start_time` and `end_time` in Unix milliseconds,
/// `total_elapsed_time` in milliseconds, `total_distance` in centimeters,
/// speeds in millimeters per second, power in watts, positions in
/// semicircles.  Absent optional fields are zero.
#[derive(Clone, Copy, Debug, PartialEq, Eq, Structural)]
pub struct FitLap {
    pub start_time: u64,
    pub end_time: u64,
    pub total_elapsed_time: u32,
    pub total_distance: u32,
    pub avg_speed: u16,
    pub max_speed: u16,
    pub avg_power: u16,
    pub start_position_lat: Option<i32>,
    pub start_position_long: Option<i32>,
}

/// A decoded message that the caller keeps.
#[derive(Clone, Copy, Debug, PartialEq, Eq, Structural)]
pub enum FitMessage {
    Record(FitRecord),
    Lap(FitLap),
}

/// The value held for `num` after inserting the pairs in order: the last
/// occurrence wins, as it would in a map filled front to back.
pub open spec fn spec_lookup(vals: Seq<(u8, FieldValue)>, num: u8) -> Option<FieldValue>
    decreases vals.len(),
{
    if vals.len() == 0 {
        None
    } else if vals.last().0 == num {
        Some(vals.last().1)
    } else {
        spec_lookup(vals.drop_last(), num)
    }
}

/// Looks a field number up among the collected `(number, value)` pairs,
/// later pairs shadowing earlier ones.
pub fn lookup_field(vals: &Vec<(u8, FieldValue)>, num: u8) -> (r: Option<FieldValue>)
    ensures
        r == spec_lookup(vals@, num),
{
    proof {
        assert(vals@.subrange(0, vals@.len() as int) =~= vals@);
    }
    let mut i: usize = vals.len();
    while i > 0
        invariant
            i <= vals@.len(),
            spec_lookup(vals@, num) == spec_lookup(vals@.subrange(0, i as int), num),
        decreases i,
    {
        let (n, v) = vals[i - 1];
        proof {
            let pre = vals@.subrange(0, i as int);
            assert(pre.last() == vals@[i - 1]);
            assert(pre.drop_last() =~= vals@.subrange(0, i - 1));
        }
        if n == num {
            return Some(v);
        }
        i = i - 1;
    }
    proof {
        assert(vals@.subrange(0, 0) =~= Seq::<(u8, FieldValue)>::empty());
    }
    None
}

/// The record assembled from a data message's field values, if the message
/// carries a readable timestamp; enhanced altitude and speed take
/// precedence over their legacy fields.
pub open spec fn spec_create_record(vals: Seq<(u8, FieldValue)>) -> Option<FitRecord> {
    match spec_lookup(vals, FIELD_TIMESTAMP) {
        None => None,
        Some(tsv) => match spec_as_timestamp(tsv) {
            None => None,
            Some(ts) => Some(
                FitRecord {
                    timestamp: ts,
                    distance: match spec_lookup(vals, FIELD_DISTANCE) {
                        Some(v) => spec_as_distance(v),
                        None => None,
                    },
                    position_lat: match spec_lookup(vals, FIELD_POSITION_LAT) {
                        Some(v) => spec_as_position(v),
                        None => None,
                    },
                    position_long: match spec_lookup(vals, FIELD_POSITION_LONG) {
                        Some(v) => spec_as_position(v),
                        None => None,
                    },
                    altitude: match (match spec_lookup(vals, FIELD_ENHANCED_ALTITUDE) {
                        Some(v) => Some(v),
                        None => spec_lookup(vals, FIELD_ALTITUDE),
                    }) {
                        Some(v) => spec_as_altitude_cm(v),
                        None => None,
                    },
                    speed: match (match spec_lookup(vals, FIELD_ENHANCED_SPEED) {
                        Some(v) => Some(v),
                        None => spec_lookup(vals, FIELD_SPEED),
                    }) {
                        Some(v) => spec_as_speed(v),
                        None => None,
                    },
                    power: match spec_lookup(vals, FIELD_POWER) {
                        Some(v) => spec_as_power(v),
                        None => None,
                    },
                },
            ),
        },
    }
}

/// The lap assembled from a data message's field values.  A lap needs a
/// readable elapsed time and either a start time (then the end is start
/// plus elapsed) or a message timestamp (then the start is that timestamp
/// minus elapsed).  Times are in milliseconds.
pub open spec fn spec_create_lap(vals: Seq<(u8, FieldValue)>) -> Option<FitLap> {
    let st = match spec_lookup(vals, FIELD_LAP_START_TIME) {
        Some(v) => spec_as_timestamp(v),
        None => None,
    };
    let ts = match spec_lookup(vals, FIELD_TIMESTAMP) {
        Some(v) => spec_as_timestamp(v),
        None => None,
    };
    let elapsed = match spec_lookup(vals, FIELD_LAP_TOTAL_ELAPSED_TIME) {
        Some(v) => spec_as_duration(v),
        None => None,
    };
    match elapsed {
        None => None,
        Some(el) => {
            let rest = FitLap {
                start_time: 0,
                end_time: 0,
                total_elapsed_time: el,
                total_distance: match spec_lookup(vals, FIELD_LAP_TOTAL_DISTANCE) {
                    Some(v) => match spec_as_distance(v) {
                        Some(d) => d,
                        None => 0,
                    },
                    None => 0,
                },
                avg_speed: match spec_lookup(vals, FIELD_LAP_AVG_SPEED) {
                    Some(v) => match spec_as_speed(v) {
                        Some(s) => s,
                        None => 0,
                    },
                    None => 0,
                },
                max_speed: match spec_lookup(vals, FIELD_LAP_MAX_SPEED) {
                    Some(v) => match spec_as_speed(v) {
                        Some(s) => s,
                        None => 0,
                    },
                    None => 0,
                },
                avg_power: match spec_lookup(vals, FIELD_LAP_AVG_POWER) {
                    Some(v) => match spec_as_power(v) {
                        Some(p) => p,
                        None => 0,
                    },
                    None => 0,
                },
                start_position_lat: match spec_lookup(vals, FIELD_LAP_START_POSITION_LAT) {
                    Some(v) => spec_as_position(v),
                    None => None,
                },
                start_position_long: match spec_lookup(vals, FIELD_LAP_START_POSITION_LONG) {
                    Some(v) => spec_as_position(v),
                    None => None,
                },
            };
            match st {
                Some(s) => Some(
                    FitLap {
                        start_time: (s * 1000) as u64,
                        end_time: (s * 1000 + el) as u64,
                        ..rest
                    },
                ),
                None => match ts {
                    Some(t) => Some(
                        FitLap {
                            start_time: (t * 1000 - el) as u64,
                            end_time: (t * 1000) as u64,
                            ..rest
                        },
                    ),
                    None => None,
                },
            }
        },
    }
}

/// Builds the record a data message yields, when it carries a timestamp.
pub fn create_record(vals: &Vec<(u8, FieldValue)>) -> (r: Option<FitRecord>)
    ensures
        r == spec_create_record(vals@),
        r is Some ==> r->Some_0.timestamp >= FIT_TIME_EPOCH,
{
    let tsv = match lookup_field(vals, FIELD_TIMESTAMP) {
        Some(v) => v,
        None => {
            return None;
        },
    };
    let ts = match tsv.as_timestamp() {
        Some(t) => t,
        None => {
            return None;
        },
    };
    let distance = match lookup_field(vals, FIELD_DISTANCE) {
        Some(v) => v.as_distance(),
        None => None,
    };
    let position_lat = match lookup_field(vals, FIELD_POSITION_LAT) {
        Some(v) => v.as_position(),
        None => None,
    };
    let position_long = match lookup_field(vals, FIELD_POSITION_LONG) {
        Some(v) => v.as_position(),
        None => None,
    };
    let altv = match lookup_field(vals, FIELD_ENHANCED_ALTITUDE) {
        Some(v) => Some(v),
        None => lookup_field(vals, FIELD_ALTITUDE),
    };
    let altitude = match altv {
        Some(v) => v.as_altitude(),
        None => None,
    };
    let spdv = match lookup_field(vals, FIELD_ENHANCED_SPEED) {
        Some(v) => Some(v),
        None => lookup_field(vals, FIELD_SPEED),
    };
    let speed = match spdv {
        Some(v) => v.as_speed(),
        None => None,
    };
    let power = match lookup_field(vals, FIELD_POWER) {
        Some(v) => v.as_power(),
        None => None,
    };
    Some(
        FitRecord {
            timestamp: ts,
            distance,
            position_lat,
            position_long,
            altitude,
            speed,
            power,
        },
    )
}

/// Builds the lap a data message yields.  The published lap always obeys
/// `end_time == start_time + total_elapsed_time`, so its start never
/// follows its end.
pub fn create_lap(vals: &Vec<(u8, FieldValue)>) -> (r: Option<FitLap>)
    ensures
        r == spec_create_lap(vals@),
        r is Some ==> r->Some_0.end_time == r->Some_0.start_time + r->Some_0.total_elapsed_time,
{
    let st = match lookup_field(vals, FIELD_LAP_START_TIME) {
        Some(v) => v.as_timestamp(),
        None => None,
    };
    let ts = match lookup_field(vals, FIELD_TIMESTAMP) {
        Some(v) => v.as_timestamp(),
        None => None,
    };
    let elapsed = match lookup_field(vals, FIELD_LAP_TOTAL_ELAPSED_TIME) {
        Some(v) => v.as_duration(),
        None => None,
    };
    let el = match elapsed {
        Some(e) => e,
        None => {
            return None;
        },
    };
    let (start_time, end_time): (u64, u64) = match st {
        Some(s) => {
            let base = s * 1000;
            (base, base + el as u64)
        },
        None => match ts {
            Some(t) => {
                let end = t * 1000;
                (end - el as u64, end)
            },
            None => {
                return None;
            },
        },
    };
    let total_distance = match lookup_field(vals, FIELD_LAP_TOTAL_DISTANCE) {
        Some(v) => match v.as_distance() {
            Some(d) => d,
            None => 0,
        },
        None => 0,
    };
    let avg_speed = match lookup_field(vals, FIELD_LAP_AVG_SPEED) {
        Some(v) => match v.as_speed() {
            Some(s) => s,
            None => 0,
        },
        None => 0,
    };
    let max_speed = match lookup_field(vals, FIELD_LAP_MAX_SPEED) {
        Some(v) => match v.as_speed() {
            Some(s) => s,
            None => 0,
        },
        None => 0,
    };
    let avg_power = match lookup_field(vals, FIELD_LAP_AVG_POWER) {
        Some(v) => match v.as_power() {
            Some(p) => p,
            None => 0,
        },
        None => 0,
    };
    let start_position_lat = match lookup_field(vals, FIELD_LAP_START_POSITION_LAT) {
        Some(v) => v.as_position(),
        None => None,
    };
    let start_position_long = match lookup_field(vals, FIELD_LAP_START_POSITION_LONG) {
        Some(v) => v.as_position(),
        None => None,
    };
    Some(
        FitLap {
            start_time,
            end_time,
            total_elapsed_time: el,
            total_distance,
            avg_speed,
            max_speed,
            avg_power,
            start_position_lat,
            start_position_long,
        },
    )
}

/// The fields kept from a definition message: each is three bytes
/// (number, size, base type); oversized or unreadable slots are skipped.
pub open spec fn spec_def_fields(data: Seq<u8>, pos: int, n: int) -> Seq<Field>
    decreases n,
{
    if n <= 0 {
        Seq::empty()
    } else {
        let f = Field {
            field_number: data[pos],
            size: data[pos + 1],
            base_type: data[pos + 2],
        };
        let rest = spec_def_fields(data, pos + 3, n - 1);
        if f.size > 8 || (f.base_type & 0x0F) > 15 {
            rest
        } else {
            seq![f] + rest
        }
    }
}

/// The value of one field read at `pos`, under the assumption that
/// `pos + f.size` stays inside the buffer.  Sentinels and unreadable
/// base types yield `Invalid`.
pub open spec fn spec_field_value(data: Seq<u8>, pos: int, f: Field) -> FieldValue {
    if f.size == 0 {
        FieldValue::Invalid
    } else {
        let bt = f.base_type & 0x0F;
        if bt == 0 || bt == 2 {
            let v = data[pos];
            if v == 0xFFu8 {
                FieldValue::Invalid
            } else {
                FieldValue::UInt8(v)
            }
        } else if bt == 1 {
            let v = sint8_of(data[pos] as int);
            if v == 0x7F {
                FieldValue::Invalid
            } else {
                FieldValue::SInt16(v as i16)
            }
        } else if bt == 3 {
            if f.size >= 2 {
                let v = crate::wire::sint16_of(le_u16_val(data, pos));
                if v == 0x7FFF {
                    FieldValue::Invalid
                } else {
                    FieldValue::SInt16(v as i16)
                }
            } else {
                FieldValue::Invalid
            }
        } else if bt == 4 {
            if f.size >= 2 {
                let v = le_u16_val(data, pos);
                if v == 0xFFFF {
                    FieldValue::Invalid
                } else {
                    FieldValue::UInt16(v as u16)
                }
            } else {
                FieldValue::Invalid
            }
        } else if bt == 5 {
            if f.size >= 4 {
                let v = crate::wire::sint32_of(le_u32_val(data, pos));
                if v == 0x7FFF_FFFF {
                    FieldValue::Invalid
                } else {
                    FieldValue::SInt32(v as i32)
                }
            } else {
                FieldValue::Invalid
            }
        } else if bt == 6 {
            if f.size >= 4 {
                let v = le_u32_val(data, pos);
                if v == 0xFFFF_FFFF {
                    FieldValue::Invalid
                } else {
                    FieldValue::UInt32(v as u32)
                }
            } else {
                FieldValue::Invalid
            }
        } else {
            FieldValue::Invalid
        }
    }
}

/// Whether every declared field of a data message fits in the buffer when
/// read in order from `pos`.
pub open spec fn spec_scan_ok(data: Seq<u8>, pos: int, fields: Seq<Field>) -> bool
    decreases fields.len(),
{
    if fields.len() == 0 {
        true
    } else if pos + fields[0].size > data.len() {
        false
    } else {
        spec_scan_ok(data, pos + fields[0].size, fields.drop_first())
    }
}

/// The cursor position after reading the declared fields in order from
/// `pos`; a field that does not fit stops the scan where it stands.
pub open spec fn spec_scan_pos(data: Seq<u8>, pos: int, fields: Seq<Field>) -> int
    decreases fields.len(),
{
    if fields.len() == 0 {
        pos
    } else if pos + fields[0].size > data.len() {
        pos
    } else {
        spec_scan_pos(data, pos + fields[0].size, fields.drop_first())
    }
}

/// The `(field number, value)` pairs a full scan yields.
pub open spec fn spec_scan_values(data: Seq<u8>, pos: int, fields: Seq<Field>) -> Seq<
    (u8, FieldValue),
>
    decreases fields.len(),
{
    if fields.len() == 0 {
        Seq::empty()
    } else if pos + fields[0].size > data.len() {
        Seq::empty()
    } else {
        seq![(fields[0].field_number, spec_field_value(data, pos, fields[0]))]
            + spec_scan_values(data, pos + fields[0].size, fields.drop_first())
    }
}

/// The abstract view of the definition table: per local type, the
/// global message number and field layout installed for it, if any.
pub open spec fn defs_view(defs: Seq<Option<FieldDefinition>>) -> Seq<Option<(u16, Seq<Field>)>> {
    Seq::new(
        defs.len(),
        |i: int|
            match defs[i] {
                Some(d) => Some((d.message_type, d.fields@)),
                None => None,
            },
    )
}

/// One definition message read at `pos` for `local`, over the abstract
/// table: the new cursor, the new table, and whether it was refused.
pub open spec fn spec_read_definition(
    data: Seq<u8>,
    pos: int,
    local: int,
    defs: Seq<Option<(u16, Seq<Field>)>>,
) -> (int, Seq<Option<(u16, Seq<Field>)>>, bool) {
    if pos + 5 > data.len() {
        (pos, defs, true)
    } else {
        let field_count = data[pos + 4] as int;
        if field_count > 100 {
            (pos + 5, defs, true)
        } else if pos + 5 + field_count * 3 > data.len() {
            (pos + 5, defs, true)
        } else {
            (
                pos + 5 + field_count * 3,
                defs.update(
                    local,
                    Some(
                        (
                            le_u16_val(data, pos + 2) as u16,
                            spec_def_fields(data, pos + 5, field_count),
                        ),
                    ),
                ),
                false,
            )
        }
    }
}

/// One data message read at `pos` for `local`, over the abstract table:
/// the new cursor, what it yields, and whether it was refused.
pub open spec fn spec_read_data(
    data: Seq<u8>,
    pos: int,
    local: int,
    defs: Seq<Option<(u16, Seq<Field>)>>,
) -> (int, Option<FitMessage>, bool) {
    match defs[local] {
        None => (pos, None, true),
        Some(d) => {
            if !spec_scan_ok(data, pos, d.1) {
                (spec_scan_pos(data, pos, d.1), None, true)
            } else {
                let vals = spec_scan_values(data, pos, d.1);
                let out = if d.0 == GLOBAL_MESSAGE_RECORD {
                    match spec_create_record(vals) {
                        Some(rec) => Some(FitMessage::Record(rec)),
                        None => None,
                    }
                } else if d.0 == GLOBAL_MESSAGE_LAP {
                    match spec_create_lap(vals) {
                        Some(lap) => Some(FitMessage::Lap(lap)),
                        None => None,
                    }
                } else {
                    None
                };
                (spec_scan_pos(data, pos, d.1), out, false)
            }
        },
    }
}

/// One message at the cursor: a set bit seven marks a compressed
/// timestamp header, read as a data message for the two-bit local type;
/// otherwise bit six selects definition against data.
pub open spec fn spec_read_message(
    data: Seq<u8>,
    pos: int,
    defs: Seq<Option<(u16, Seq<Field>)>>,
) -> (int, Seq<Option<(u16, Seq<Field>)>>, Option<FitMessage>, bool) {
    if pos >= data.len() {
        (pos, defs, None, false)
    } else {
        let h = data[pos];
        if h & 0x80 != 0 {
            let m = spec_read_data(data, pos + 1, ((h & 0x60) >> 5) as int, defs);
            (m.0, defs, m.1, m.2)
        } else if h & 0x40 != 0 {
            let m = spec_read_definition(data, pos + 1, (h & 0x0F) as int, defs);
            (m.0, m.1, None, m.2)
        } else {
            let m = spec_read_data(data, pos + 1, (h & 0x0F) as int, defs);
            (m.0, defs, m.1, m.2)
        }
    }
}

/// The field scan never moves the cursor backwards nor past the end.
proof fn lemma_scan_pos_bounds(data: Seq<u8>, pos: int, fields: Seq<Field>)
    requires
        pos <= data.len(),
    ensures
        pos <= spec_scan_pos(data, pos, fields) <= data.len(),
    decreases fields.len(),
{
    if fields.len() > 0 && pos + fields[0].size <= data.len() {
        lemma_scan_pos_bounds(data, pos + fields[0].size, fields.drop_first());
    }
}

/// Reading one message advances the cursor and keeps it in the buffer.
proof fn lemma_read_message_advances(
    data: Seq<u8>,
    pos: int,
    defs: Seq<Option<(u16, Seq<Field>)>>,
)
    requires
        pos < data.len(),
    ensures
        pos < spec_read_message(data, pos, defs).0 <= data.len(),
{
    let h = data[pos];
    if h & 0x80 != 0 {
        lemma_read_data_advances(data, pos + 1, ((h & 0x60) >> 5) as int, defs);
    } else if h & 0x40 != 0 {
    } else {
        lemma_read_data_advances(data, pos + 1, (h & 0x0F) as int, defs);
    }
}

/// Reading one data message never moves the cursor backwards nor past
/// the end.
proof fn lemma_read_data_advances(
    data: Seq<u8>,
    pos: int,
    local: int,
    defs: Seq<Option<(u16, Seq<Field>)>>,
)
    requires
        pos <= data.len(),
    ensures
        pos <= spec_read_data(data, pos, local, defs).0 <= data.len(),
{
    match defs[local] {
        None => {},
        Some(d) => {
            lemma_scan_pos_bounds(data, pos, d.1);
        },
    }
}

/// Every record and lap the stream yields from `pos` on: a refused
/// message costs one extra byte of resynchronization, and decoding
/// stops within two bytes of the end.
pub open spec fn spec_parse_messages(
    data: Seq<u8>,
    pos: int,
    defs: Seq<Option<(u16, Seq<Field>)>>,
) -> (Seq<FitRecord>, Seq<FitLap>)
    decreases data.len() - pos,
    via spec_parse_messages_decreases
{
    if !(pos < data.len() - 2) {
        (Seq::empty(), Seq::empty())
    } else {
        let m = spec_read_message(data, pos, defs);
        if m.3 {
            if data.len() - m.0 <= 1 {
                (Seq::empty(), Seq::empty())
            } else {
                spec_parse_messages(data, m.0 + 1, m.1)
            }
        } else {
            let rest = spec_parse_messages(data, m.0, m.1);
            match m.2 {
                Some(FitMessage::Record(rec)) => (seq![rec] + rest.0, rest.1),
                Some(FitMessage::Lap(lap)) => (rest.0, seq![lap] + rest.1),
                None => rest,
            }
        }
    }
}

#[via_fn]
proof fn spec_parse_messages_decreases(
    data: Seq<u8>,
    pos: int,
    defs: Seq<Option<(u16, Seq<Field>)>>,
) {
    if pos < data.len() - 2 {
        lemma_read_message_advances(data, pos, defs);
    }
}

/// Where decoding starts: at the declared header size, but never inside
/// the first twelve bytes.
pub open spec fn spec_parse_start(data: Seq<u8>) -> int {
    if data[0] > 12 {
        data[0] as int
    } else {
        12
    }
}

/// Decodes one FIT byte blob: framing, the per-local-type definition
/// table, and record / lap assembly, recovering from damaged stretches by
/// one-byte resynchronization.
pub struct FitDecoder {
    data: Vec<u8>,
    position: usize,
    definitions: Vec<Option<FieldDefinition>>,
}

impl FitDecoder {
    /// The decoder's structural invariant: sixteen definition slots, the
    /// cursor inside the buffer, and a header-bearing buffer.
    pub closed spec fn wf(self) -> bool {
        &&& self.definitions@.len() == 16
        &&& self.position <= self.data@.len()
        &&& self.data@.len() >= 12
        &&& 12 <= self.data@[0] <= self.data@.len()
    }

    /// The bytes the decoder was built over.
    pub closed spec fn spec_data(self) -> Seq<u8> {
        self.data@
    }

    /// The abstract definition table currently installed.
    pub closed spec fn spec_defs(self) -> Seq<Option<(u16, Seq<Field>)>> {
        defs_view(self.definitions@)
    }

    /// Accepts a blob exactly when it is at least twelve bytes long,
    /// carries the `.FIT` signature, and declares a header size between
    /// twelve and the blob length.
    pub fn new(data: Vec<u8>) -> (r: Result<FitDecoder, DecodeError>)
        ensures
            ({
                let d = data@;
                if d.len() < 12 {
                    r == Err::<FitDecoder, DecodeError>(DecodeError::TooSmall)
                } else if !has_fit_signature(d) {
                    r == Err::<FitDecoder, DecodeError>(DecodeError::BadSignature)
                } else if d[0] < 12 || d[0] > d.len() {
                    r == Err::<FitDecoder, DecodeError>(DecodeError::BadHeaderSize)
                } else {
                    &&& r is Ok
                    &&& r->Ok_0.wf()
                    &&& r->Ok_0.spec_data() == d
                    &&& r->Ok_0.spec_defs().len() == 16
                    &&& forall|j: int| 0 <= j < 16 ==> r->Ok_0.spec_defs()[j] is None
                }
            }),
    {
        if data.len() < 12 {
            return Err(DecodeError::TooSmall);
        }
        if !(data[8] == 46 && data[9] == 70 && data[10] == 73 && data[11] == 84) {
            return Err(DecodeError::BadSignature);
        }
        let header_size = data[0] as usize;
        if header_size < 12 || header_size > data.len() {
            return Err(DecodeError::BadHeaderSize);
        }
        let mut definitions: Vec<Option<FieldDefinition>> = Vec::new();
        let mut i: usize = 0;
        while i < 16
            invariant
                definitions@.len() == i,
                i <= 16,
                forall|j: int| 0 <= j < i ==> definitions@[j] is None,
            decreases 16 - i,
        {
            definitions.push(None);
            i = i + 1;
        }
        Ok(FitDecoder { data, position: 0, definitions })
    }

    /// Reads one field value at the cursor and advances by the field's
    /// declared size; a field that does not fit leaves the cursor alone.
    fn read_field_value(&mut self, field: &Field) -> (r: Result<FieldValue, DecodeError>)
        requires
            old(self).wf(),
        ensures
            final(self).wf(),
            final(self).data@ == old(self).data@,
            final(self).definitions@ == old(self).definitions@,
            ({
                let data = old(self).data@;
                let pos = old(self).position as int;
                if pos + field.size > data.len() {
                    &&& r == Err::<FieldValue, DecodeError>(DecodeError::FieldDataTruncated)
                    &&& final(self).position == old(self).position
                } else {
                    &&& r == Ok::<FieldValue, DecodeError>(spec_field_value(data, pos, *field))
                    &&& final(self).position == pos + field.size
                }
            }),
    {
        if self.data.len() - self.position < field.size as usize {
            return Err(DecodeError::FieldDataTruncated);
        }
        if field.size == 0 {
            return Ok(FieldValue::Invalid);
        }
        let pos = self.position;
        let size = field.size as usize;
        let bt = field.base_type & 0x0F;
        let value = if bt == 0 || bt == 2 {
            let v = self.data[pos];
            if v == 0xFF {
                FieldValue::Invalid
            } else {
                FieldValue::UInt8(v)
            }
        } else if bt == 1 {
            let v = u8_as_i8_value(self.data[pos]);
            if v == 0x7F {
                FieldValue::Invalid
            } else {
                FieldValue::SInt16(v)
            }
        } else if bt == 3 {
            if size >= 2 {
                let v = read_i16_le(self.data.as_slice(), pos);
                if v == 0x7FFF {
                    FieldValue::Invalid
                } else {
                    FieldValue::SInt16(v)
                }
            } else {
                FieldValue::Invalid
            }
        } else if bt == 4 {
            if size >= 2 {
                let v = read_u16_le(self.data.as_slice(), pos);
                if v == 0xFFFF {
                    FieldValue::Invalid
                } else {
                    FieldValue::UInt16(v)
                }
            } else {
                FieldValue::Invalid
            }
        } else if bt == 5 {
            if size >= 4 {
                let v = read_i32_le(self.data.as_slice(), pos);
                if v == 0x7FFF_FFFF {
                    FieldValue::Invalid
                } else {
                    FieldValue::SInt32(v)
                }
            } else {
                FieldValue::Invalid
            }
        } else if bt == 6 {
            if size >= 4 {
                let v = read_u32_le(self.data.as_slice(), pos);
                if v == 0xFFFF_FFFF {
                    FieldValue::Invalid
                } else {
                    FieldValue::UInt32(v)
                }
            } else {
                FieldValue::Invalid
            }
        } else {
            FieldValue::Invalid
        };
        self.position = self.position + size;
        Ok(value)
    }

    /// Reads a definition message for the given local type and installs
    /// its field layout, replacing any earlier layout for that type.
    fn read_definition_message(&mut self, local_message_type: u8) -> (r: Result<(), DecodeError>)
        requires
            old(self).wf(),
            local_message_type < 16,
        ensures
            final(self).wf(),
            final(self).data@ == old(self).data@,
            final(self).position >= old(self).position,
            ({
                let data = old(self).data@;
                let pos = old(self).position as int;
                let len = data.len() as int;
                if pos + 5 > len {
                    &&& r == Err::<(), DecodeError>(DecodeError::DefinitionHeaderTruncated)
                    &&& final(self).position == old(self).position
                    &&& final(self).definitions@ == old(self).definitions@
                } else {
                    let field_count = data[pos + 4] as int;
                    if field_count > 100 {
                        &&& r == Err::<(), DecodeError>(DecodeError::FieldCountTooLarge)
                        &&& final(self).position == pos + 5
                        &&& final(self).definitions@ == old(self).definitions@
                    } else if pos + 5 + field_count * 3 > len {
                        &&& r == Err::<(), DecodeError>(DecodeError::DefinitionFieldsTruncated)
                        &&& final(self).position == pos + 5
                        &&& final(self).definitions@ == old(self).definitions@
                    } else {
                        &&& r == Ok::<(), DecodeError>(())
                        &&& final(self).position == pos + 5 + field_count * 3
                        &&& final(self).definitions@[local_message_type as int] is Some
                        &&& final(self).definitions@[local_message_type as int]
                            ->Some_0.message_type == le_u16_val(data, pos + 2)
                        &&& final(self).definitions@[local_message_type as int]->Some_0.fields@
                            == spec_def_fields(data, pos + 5, field_count)
                        &&& forall|j: int|
                            0 <= j < 16 && j != local_message_type ==> final(self).definitions@[j]
                                == old(self).definitions@[j]
                    }
                }
            }),
            ({
                let m = spec_read_definition(
                    old(self).data@,
                    old(self).position as int,
                    local_message_type as int,
                    defs_view(old(self).definitions@),
                );
                &&& final(self).position == m.0
                &&& defs_view(final(self).definitions@) == m.1
                &&& (r is Err <==> m.2)
            }),
    {
        if self.data.len() - self.position < 5 {
            return Err(DecodeError::DefinitionHeaderTruncated);
        }
        let gmn = read_u16_le(self.data.as_slice(), self.position + 2);
        let field_count = self.data[self.position + 4];
        self.position = self.position + 5;
        if field_count > 100 {
            return Err(DecodeError::FieldCountTooLarge);
        }
        let needed = (field_count as usize) * 3;
        if self.data.len() - self.position < needed {
            return Err(DecodeError::DefinitionFieldsTruncated);
        }
        let ghost data = self.data@;
        let ghost defs0 = self.definitions@;
        let ghost fstart = self.position as int;
        let ghost n = field_count as int;
        let mut fields: Vec<Field> = Vec::new();
        let mut i: usize = 0;
        proof {
            assert(fields@ + spec_def_fields(data, fstart, n) =~= spec_def_fields(
                data,
                fstart,
                n,
            ));
        }
        while i < field_count as usize
            invariant
                i <= n,
                n <= 100,
                n == field_count as int,
                data == old(self).data@,
                defs0 == old(self).definitions@,
                self.position == fstart + 3 * i,
                fstart + 3 * n <= data.len(),
                fstart + 3 * n <= usize::MAX,
                fstart >= 0,
                self.data@ == data,
                self.definitions@ == defs0,
                self.wf(),
                fields@ + spec_def_fields(data, fstart + 3 * i, n - i) == spec_def_fields(
                    data,
                    fstart,
                    n,
                ),
            decreases n - i,
        {
            let f = Field {
                field_number: self.data[self.position],
                size: self.data[self.position + 1],
                base_type: self.data[self.position + 2],
            };
            let ghost rest = spec_def_fields(data, fstart + 3 * (i as int) + 3, n - i - 1);
            if f.size > 8 || (f.base_type & 0x0F) > 15 {
                proof {
                    assert(spec_def_fields(data, fstart + 3 * (i as int), n - i) == rest);
                }
            } else {
                fields.push(f);
                proof {
                    assert(spec_def_fields(data, fstart + 3 * (i as int), n - i) == seq![f]
                        + rest);
                    assert(fields@ =~= fields@.drop_last() + seq![f]);
                    assert((fields@.drop_last() + seq![f]) + rest =~= fields@.drop_last() + (
                    seq![f] + rest));
                }
            }
            self.position = self.position + 3;
            i = i + 1;
        }
        proof {
            assert(spec_def_fields(data, fstart + 3 * n, 0) =~= Seq::<Field>::empty());
            assert(fields@ + Seq::<Field>::empty() =~= fields@);
        }
        let definition = FieldDefinition { message_type: gmn, fields };
        self.definitions.set(local_message_type as usize, Some(definition));
        proof {
            assert(defs_view(self.definitions@) =~~= defs_view(defs0).update(
                local_message_type as int,
                Some((gmn, spec_def_fields(data, fstart, n))),
            ));
        }
        Ok(())
    }

    /// Reads a data message for the given local type under its installed
    /// definition and assembles the record or lap it carries, if any.
    fn read_data_message(&mut self, local_message_type: u8) -> (r: Result<
        Option<FitMessage>,
        DecodeError,
    >)
        requires
            old(self).wf(),
            local_message_type < 16,
        ensures
            final(self).wf(),
            final(self).data@ == old(self).data@,
            final(self).definitions@ == old(self).definitions@,
            final(self).position >= old(self).position,
            ({
                let data = old(self).data@;
                let pos = old(self).position as int;
                match old(self).definitions@[local_message_type as int] {
                    None => {
                        &&& r == Err::<Option<FitMessage>, DecodeError>(
                            DecodeError::UndefinedLocalType,
                        )
                        &&& final(self).position == old(self).position
                    },
                    Some(d) => {
                        let flds = d.fields@;
                        &&& final(self).position == spec_scan_pos(data, pos, flds)
                        &&& if spec_scan_ok(data, pos, flds) {
                            let vals = spec_scan_values(data, pos, flds);
                            if d.message_type == GLOBAL_MESSAGE_RECORD {
                                r == Ok::<Option<FitMessage>, DecodeError>(
                                    match spec_create_record(vals) {
                                        Some(rec) => Some(FitMessage::Record(rec)),
                                        None => None,
                                    },
                                )
                            } else if d.message_type == GLOBAL_MESSAGE_LAP {
                                r == Ok::<Option<FitMessage>, DecodeError>(
                                    match spec_create_lap(vals) {
                                        Some(lap) => Some(FitMessage::Lap(lap)),
                                        None => None,
                                    },
                                )
                            } else {
                                r == Ok::<Option<FitMessage>, DecodeError>(None)
                            }
                        } else {
                            r == Err::<Option<FitMessage>, DecodeError>(
                                DecodeError::FieldDataTruncated,
                            )
                        }
                    },
                }
            }),
            (match r {
                Ok(Some(FitMessage::Record(rec))) => rec.timestamp >= FIT_TIME_EPOCH,
                Ok(Some(FitMessage::Lap(lap))) => lap.end_time == lap.start_time
                    + lap.total_elapsed_time,
                _ => true,
            }),
            ({
                let m = spec_read_data(
                    old(self).data@,
                    old(self).position as int,
                    local_message_type as int,
                    defs_view(old(self).definitions@),
                );
                &&& final(self).position == m.0
                &&& (r is Err <==> m.2)
                &&& (r is Ok ==> r->Ok_0 == m.1)
            }),
    {
        let local_idx = local_message_type as usize;
        let (gmn, nfields) = match &self.definitions[local_idx] {
            Some(d) => (d.message_type, d.fields.len()),
            None => {
                return Err(DecodeError::UndefinedLocalType);
            },
        };
        let ghost data = self.data@;
        let ghost defs0 = self.definitions@;
        let ghost pos0 = self.position as int;
        let ghost flds = defs0[local_idx as int]->Some_0.fields@;
        let mut values: Vec<(u8, FieldValue)> = Vec::new();
        let mut i: usize = 0;
        proof {
            assert(flds.skip(0) =~= flds);
            assert(values@ + spec_scan_values(data, pos0, flds) =~= spec_scan_values(
                data,
                pos0,
                flds,
            ));
        }
        while i < nfields
            invariant
                i <= nfields,
                nfields == flds.len(),
                local_idx < 16,
                local_idx == local_message_type as usize,
                self.wf(),
                data == old(self).data@,
                defs0 == old(self).definitions@,
                pos0 == old(self).position as int,
                self.data@ == data,
                self.definitions@ == defs0,
                defs0[local_idx as int] is Some,
                flds == defs0[local_idx as int]->Some_0.fields@,
                spec_scan_pos(data, self.position as int, flds.skip(i as int)) == spec_scan_pos(
                    data,
                    pos0,
                    flds,
                ),
                spec_scan_ok(data, self.position as int, flds.skip(i as int)) == spec_scan_ok(
                    data,
                    pos0,
                    flds,
                ),
                spec_scan_ok(data, pos0, flds) ==> values@ + spec_scan_values(
                    data,
                    self.position as int,
                    flds.skip(i as int),
                ) == spec_scan_values(data, pos0, flds),
                self.position >= pos0,
            decreases nfields - i,
        {
            let f = match &self.definitions[local_idx] {
                Some(d) => d.fields[i],
                None => Field { field_number: 0, size: 0, base_type: 0 },
            };
            proof {
                assert(flds.skip(i as int)[0] == flds[i as int]);
                assert(f == flds[i as int]);
                assert(flds.skip(i as int).drop_first() =~= flds.skip(i as int + 1));
            }
            let ghost cur = self.position as int;
            match self.read_field_value(&f) {
                Ok(v) => {
                    proof {
                        assert(values@.push((f.field_number, v)) =~= values@ + seq![
                            (f.field_number, v),
                        ]);
                        assert((values@ + seq![(f.field_number, v)]) + spec_scan_values(
                            data,
                            cur + f.size,
                            flds.skip(i as int + 1),
                        ) =~= values@ + (seq![(f.field_number, v)] + spec_scan_values(
                            data,
                            cur + f.size,
                            flds.skip(i as int + 1),
                        )));
                    }
                    values.push((f.field_number, v));
                },
                Err(e) => {
                    proof {
                        assert(spec_scan_pos(data, cur, flds.skip(i as int)) == cur);
                        assert(!spec_scan_ok(data, cur, flds.skip(i as int)));
                    }
                    return Err(e);
                },
            }
            i = i + 1;
        }
        proof {
            assert(flds.skip(nfields as int) =~= Seq::<Field>::empty());
            assert(values@ + Seq::<(u8, FieldValue)>::empty() =~= values@);
        }
        if gmn == GLOBAL_MESSAGE_RECORD {
            match create_record(&values) {
                Some(rec) => Ok(Some(FitMessage::Record(rec))),
                None => Ok(None),
            }
        } else if gmn == GLOBAL_MESSAGE_LAP {
            match create_lap(&values) {
                Some(lap) => Ok(Some(FitMessage::Lap(lap))),
                None => Ok(None),
            }
        } else {
            Ok(None)
        }
    }

    /// Reads one message at the cursor: a compressed-timestamp header is
    /// treated as a data message for its two-bit local type; otherwise
    /// bit six selects definition against data.
    fn read_message(&mut self) -> (r: Result<Option<FitMessage>, DecodeError>)
        requires
            old(self).wf(),
            old(self).position < old(self).data@.len(),
        ensures
            final(self).wf(),
            final(self).data@ == old(self).data@,
            final(self).position > old(self).position,
            (match r {
                Ok(Some(FitMessage::Record(rec))) => rec.timestamp >= FIT_TIME_EPOCH,
                Ok(Some(FitMessage::Lap(lap))) => lap.end_time == lap.start_time
                    + lap.total_elapsed_time,
                _ => true,
            }),
            ({
                let m = spec_read_message(
                    old(self).data@,
                    old(self).position as int,
                    defs_view(old(self).definitions@),
                );
                &&& final(self).position == m.0
                &&& defs_view(final(self).definitions@) == m.1
                &&& (r is Err <==> m.3)
                &&& (r is Ok ==> r->Ok_0 == m.2)
            }),
    {
        if self.position >= self.data.len() {
            return Ok(None);
        }
        let record_header = self.data[self.position];
        self.position = self.position + 1;
        if record_header & 0x80 != 0 {
            let local_message_type = (record_header & 0x60) >> 5;
            proof {
                assert(local_message_type < 16) by (bit_vector)
                    requires
                        local_message_type == (record_header & 0x60) >> 5,
                ;
            }
            return self.read_data_message(local_message_type);
        }
        let is_definition = record_header & 0x40 != 0;
        let local_message_type = record_header & 0x0F;
        proof {
            assert(local_message_type < 16) by (bit_vector)
                requires
                    local_message_type == record_header & 0x0F,
            ;
        }
        if is_definition {
            match self.read_definition_message(local_message_type) {
                Ok(()) => Ok(None),
                Err(e) => Err(e),
            }
        } else {
            self.read_data_message(local_message_type)
        }
    }

    /// Walks the whole stream from the end of the header, recovering from
    /// bad stretches one byte at a time, and returns exactly the records
    /// the stream encodes, sorted by timestamp, together with its laps in
    /// stream order.  Every lap ends exactly its elapsed time after it
    /// starts.
    pub fn parse(&mut self) -> (r: Result<(Vec<FitRecord>, Vec<FitLap>), DecodeError>)
        requires
            old(self).wf(),
        ensures
            final(self).wf(),
            final(self).spec_data() == old(self).spec_data(),
            r is Ok,
            sorted_by_timestamp(r->Ok_0.0@),
            ({
                let full = spec_parse_messages(
                    old(self).spec_data(),
                    spec_parse_start(old(self).spec_data()),
                    old(self).spec_defs(),
                );
                &&& r->Ok_0.0@.to_multiset() == full.0.to_multiset()
                &&& r->Ok_0.0@.len() == full.0.len()
                &&& r->Ok_0.1@ == full.1
            }),
            forall|i: int|
                0 <= i < r->Ok_0.0@.len() ==> (#[trigger] r->Ok_0.0@[i]).timestamp
                    >= FIT_TIME_EPOCH,
            forall|i: int|
                0 <= i < r->Ok_0.1@.len() ==> (#[trigger] r->Ok_0.1@[i]).end_time
                    == r->Ok_0.1@[i].start_time + r->Ok_0.1@[i].total_elapsed_time,
            r->Ok_0.0@.len() + r->Ok_0.1@.len() <= old(self).spec_data().len(),
    {
        let header_size = self.data[0] as usize;
        self.position = if header_size > 12 {
            header_size
        } else {
            12
        };
        let mut records: Vec<FitRecord> = Vec::new();
        let mut laps: Vec<FitLap> = Vec::new();
        let ghost data0 = self.data@;
        let ghost full = spec_parse_messages(
            data0,
            self.position as int,
            defs_view(self.definitions@),
        );
        while self.position < self.data.len() - 2
            invariant
                self.wf(),
                self.data@ == data0,
                records@.len() + laps@.len() + 12 <= self.position,
                full.0 == records@ + spec_parse_messages(
                    data0,
                    self.position as int,
                    defs_view(self.definitions@),
                ).0,
                full.1 == laps@ + spec_parse_messages(
                    data0,
                    self.position as int,
                    defs_view(self.definitions@),
                ).1,
                forall|i: int|
                    0 <= i < records@.len() ==> (#[trigger] records@[i]).timestamp
                        >= FIT_TIME_EPOCH,
                forall|i: int|
                    0 <= i < laps@.len() ==> (#[trigger] laps@[i]).end_time
                        == laps@[i].start_time + laps@[i].total_elapsed_time,
            decreases self.data@.len() - self.position,
        {
            let ghost cur = self.position as int;
            let ghost dv = defs_view(self.definitions@);
            let ghost suffix = spec_parse_messages(data0, cur, dv);
            let ghost m = spec_read_message(data0, cur, dv);
            match self.read_message() {
                Ok(msg) => {
                    let ghost rest = spec_parse_messages(
                        data0,
                        self.position as int,
                        defs_view(self.definitions@),
                    );
                    match msg {
                        Some(FitMessage::Record(rec)) => {
                            proof {
                                assert(suffix.0 =~= seq![rec] + rest.0);
                                assert(records@ + (seq![rec] + rest.0) =~= (records@ + seq![
                                    rec,
                                ]) + rest.0);
                                assert(records@.push(rec) =~= records@ + seq![rec]);
                            }
                            records.push(rec);
                        },
                        Some(FitMessage::Lap(lap)) => {
                            proof {
                                assert(suffix.1 =~= seq![lap] + rest.1);
                                assert(laps@ + (seq![lap] + rest.1) =~= (laps@ + seq![lap])
                                    + rest.1);
                                assert(laps@.push(lap) =~= laps@ + seq![lap]);
                            }
                            laps.push(lap);
                        },
                        None => {},
                    }
                },
                Err(_) => {
                    if self.position < self.data.len() {
                        proof {
                            if data0.len() - m.0 <= 1 {
                                assert(spec_parse_messages(data0, m.0 + 1, defs_view(
                                    self.definitions@,
                                )).0 =~= Seq::<FitRecord>::empty());
                                assert(spec_parse_messages(data0, m.0 + 1, defs_view(
                                    self.definitions@,
                                )).1 =~= Seq::<FitLap>::empty());
                            }
                        }
                        self.position = self.position + 1;
                    } else {
                        proof {
                            assert(suffix.0 =~= Seq::<FitRecord>::empty());
                            assert(suffix.1 =~= Seq::<FitLap>::empty());
                        }
                    }
                },
            }
        }
        proof {
            assert(spec_parse_messages(
                data0,
                self.position as int,
                defs_view(self.definitions@),
            ).0 =~= Seq::<FitRecord>::empty());
            assert(spec_parse_messages(
                data0,
                self.position as int,
                defs_view(self.definitions@),
            ).1 =~= Seq::<FitLap>::empty());
            assert(records@ + Seq::<FitRecord>::empty() =~= records@);
            assert(laps@ + Seq::<FitLap>::empty() =~= laps@);
        }
        let ghost unsorted = records@;
        let sorted = sort_records_by_timestamp(records);
        proof {
            sorted@.to_multiset_ensures();
            unsorted.to_multiset_ensures();
            assert forall|i: int| 0 <= i < sorted@.len() implies (#[trigger] sorted@[i]).timestamp
                >= FIT_TIME_EPOCH by {
                assert(sorted@.contains(sorted@[i]));
                assert(sorted@.to_multiset().count(sorted@[i]) > 0);
                assert(unsorted.to_multiset().count(sorted@[i]) > 0);
                assert(unsorted.contains(sorted@[i]));
            }
        }
        Ok((sorted, laps))
    }
}

/// Holds when the records appear in non-decreasing timestamp order.
pub open spec fn sorted_by_timestamp(s: Seq<FitRecord>) -> bool {
    forall|i: int, j: int| 0 <= i < j < s.len() ==> s[i].timestamp <= s[j].timestamp
}

/// Reorders the records into non-decreasing timestamp order; the result
/// holds exactly the given records, multiplicity included.
pub fn sort_records_by_timestamp(records: Vec<FitRecord>) -> (r: Vec<FitRecord>)
    ensures
        sorted_by_timestamp(r@),
        r@.to_multiset() == records@.to_multiset(),
        r@.len() == records@.len(),
{
    broadcast use vstd::multiset::group_multiset_axioms;

    let ghost orig = records@;
    let mut rest = records;
    let mut out: Vec<FitRecord> = Vec::new();
    proof {
        out@.to_multiset_ensures();
        assert(out@.to_multiset() =~= Multiset::<FitRecord>::empty());
        assert(out@.to_multiset().add(rest@.to_multiset()) =~= rest@.to_multiset());
    }
    while rest.len() > 0
        invariant
            sorted_by_timestamp(out@),
            forall|i: int, j: int|
                0 <= i < out@.len() && 0 <= j < rest@.len() ==> out@[i].timestamp
                    <= rest@[j].timestamp,
            out@.to_multiset().add(rest@.to_multiset()) == orig.to_multiset(),
            out@.len() + rest@.len() == orig.len(),
        decreases rest@.len(),
    {
        let mut m: usize = 0;
        let mut k: usize = 1;
        while k < rest.len()
            invariant
                m < k <= rest@.len() || (k <= rest@.len() && m == 0),
                m < rest@.len(),
                rest@.len() > 0,
                forall|j: int| 0 <= j < k ==> rest@[m as int].timestamp <= rest@[j].timestamp,
            decreases rest@.len() - k,
        {
            if rest[k].timestamp < rest[m].timestamp {
                m = k;
            }
            k = k + 1;
        }
        let ghost pre = rest@;
        let x = rest.remove(m);
        proof {
            pre.to_multiset_ensures();
            assert(rest@.to_multiset() =~= pre.to_multiset().remove(x));
            assert(pre.to_multiset().contains(x)) by {
                assert(pre.contains(x));
            }
            out@.to_multiset_ensures();
            assert(out@.push(x).to_multiset() =~= out@.to_multiset().insert(x));
            assert(out@.push(x).to_multiset().add(rest@.to_multiset()) =~= out@.to_multiset().add(
                pre.to_multiset(),
            ));
            assert(forall|j: int|
                0 <= j < rest@.len() ==> x.timestamp <= (#[trigger] rest@[j]).timestamp) by {
                assert(forall|j: int|
                    0 <= j < rest@.len() ==> rest@[j] == if j < m {
                        pre[j]
                    } else {
                        pre[j + 1]
                    });
            }
        }
        out.push(x);
    }
    proof {
        assert(rest@.to_multiset() =~= Multiset::<FitRecord>::empty()) by {
            rest@.to_multiset_ensures();
        }
        assert(out@.to_multiset().add(rest@.to_multiset()) =~= out@.to_multiset());
    }
    out
}

} // verus!
