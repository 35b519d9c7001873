//! Raw FIT field values and their semantic readings.
//!
//! All readings are exact integers: timestamps in Unix seconds, positions
//! in semicircles, altitude in centimeters, speed in millimeters per
//! second, distance in centimeters, power in watts, durations in
//! milliseconds.

use vstd::prelude::*;

verus! {

/// Seconds between the FIT epoch (1989-12-31T00:00:00Z) and the Unix epoch.
pub const FIT_TIME_EPOCH: u64 = 631_065_600;

/// A value read from one field of a FIT data message, still in raw wire units.
#[derive(Clone, Copy, Debug, PartialEq, Eq, Structural)]
pub enum FieldValue {
    UInt8(u8),
    SInt16(i16),
    UInt16(u16),
    SInt32(i32),
    UInt32(u32),
    /// A sentinel, an unreadable base type, or a skipped field.
    Invalid,
}

pub open spec fn spec_as_timestamp(v: FieldValue) -> Option<u64> {
    match v {
        FieldValue::UInt32(x) => if x == 0xFFFF_FFFFu32 {
            None
        } else {
            Some((x + FIT_TIME_EPOCH) as u64)
        },
        FieldValue::UInt16(x) => if x == 0xFFFFu16 {
            None
        } else {
            Some((x + FIT_TIME_EPOCH) as u64)
        },
        _ => None,
    }
}

pub open spec fn spec_as_position(v: FieldValue) -> Option<i32> {
    match v {
        FieldValue::SInt32(x) => if x == 0x7FFF_FFFFi32 {
            None
        } else {
            Some(x)
        },
        _ => None,
    }
}

pub open spec fn spec_as_altitude_cm(v: FieldValue) -> Option<i64> {
    match v {
        FieldValue::UInt16(x) => if x == 0xFFFFu16 {
            None
        } else {
            Some(((x - 2500) * 20) as i64)
        },
        FieldValue::SInt16(x) => if x == 0x7FFFi16 {
            None
        } else {
            Some(((x - 2500) * 20) as i64)
        },
        _ => None,
    }
}

pub open spec fn spec_as_speed(v: FieldValue) -> Option<u16> {
    match v {
        FieldValue::UInt16(x) => if x == 0xFFFFu16 {
            None
        } else {
            Some(x)
        },
        _ => None,
    }
}

pub open spec fn spec_as_distance(v: FieldValue) -> Option<u32> {
    match v {
        FieldValue::UInt32(x) => if x == 0xFFFF_FFFFu32 {
            None
        } else {
            Some(x)
        },
        _ => None,
    }
}

pub open spec fn spec_as_power(v: FieldValue) -> Option<u16> {
    match v {
        FieldValue::UInt16(x) => if x == 0xFFFFu16 {
            None
        } else {
            Some(x)
        },
        FieldValue::UInt8(x) => if x == 0xFFu8 {
            None
        } else {
            Some(x as u16)
        },
        _ => None,
    }
}

pub open spec fn spec_as_duration(v: FieldValue) -> Option<u32> {
    match v {
        FieldValue::UInt32(x) => if x == 0xFFFF_FFFFu32 {
            None
        } else {
            Some(x)
        },
        _ => None,
    }
}

/// Micro-degrees for a position in semicircles: two to the thirty-first
/// semicircles are one hundred eighty degrees, rounded toward zero.
pub open spec fn spec_semicircles_to_microdegrees(sc: int) -> int {
    if sc >= 0 {
        sc * 180_000_000 / 0x8000_0000
    } else {
        -((-sc) * 180_000_000 / 0x8000_0000)
    }
}

/// Converts a semicircle position to micro-degrees, rounding toward
/// zero.
pub fn semicircles_to_microdegrees(sc: i32) -> (r: i64)
    ensures
        r == spec_semicircles_to_microdegrees(sc as int),
        -180_000_000 <= r <= 180_000_000,
{
    if sc >= 0 {
        let num = (sc as u64) * 180_000_000;
        let q = num / 0x8000_0000;
        proof {
            vstd::arithmetic::div_mod::lemma_multiply_divide_le(
                num as int,
                0x8000_0000,
                180_000_000,
            );
            vstd::arithmetic::mul::lemma_mul_inequality(sc as int, 0x8000_0000, 180_000_000);
        }
        q as i64
    } else {
        let mag = (-(sc as i64)) as u64;
        let num = mag * 180_000_000;
        let q = num / 0x8000_0000;
        proof {
            vstd::arithmetic::div_mod::lemma_multiply_divide_le(
                num as int,
                0x8000_0000,
                180_000_000,
            );
            vstd::arithmetic::mul::lemma_mul_inequality(mag as int, 0x8000_0000, 180_000_000);
        }
        -(q as i64)
    }
}

impl FieldValue {
    /// Unix seconds; FIT stores seconds since its own 1989 epoch.
    pub fn as_timestamp(&self) -> (r: Option<u64>)
        ensures
            r == spec_as_timestamp(*self),
            r is Some ==> FIT_TIME_EPOCH <= r->Some_0 <= 0xFFFF_FFFFu64 + FIT_TIME_EPOCH,
    {
        match self {
            FieldValue::UInt32(x) => if *x == 0xFFFF_FFFF {
                None
            } else {
                Some(*x as u64 + FIT_TIME_EPOCH)
            },
            FieldValue::UInt16(x) => if *x == 0xFFFF {
                None
            } else {
                Some(*x as u64 + FIT_TIME_EPOCH)
            },
            _ => None,
        }
    }

    /// Position in semicircles; 2^31 semicircles are 180 degrees.
    pub fn as_position(&self) -> (r: Option<i32>)
        ensures
            r == spec_as_position(*self),
    {
        match self {
            FieldValue::SInt32(x) => if *x == 0x7FFF_FFFF {
                None
            } else {
                Some(*x)
            },
            _ => None,
        }
    }

    /// Altitude in centimeters: the raw value counts fifths of a meter
    /// with a five-hundred-meter offset.
    pub fn as_altitude(&self) -> (r: Option<i64>)
        ensures
            r == spec_as_altitude_cm(*self),
    {
        match self {
            FieldValue::UInt16(x) => if *x == 0xFFFF {
                None
            } else {
                Some((*x as i64 - 2500) * 20)
            },
            FieldValue::SInt16(x) => if *x == 0x7FFF {
                None
            } else {
                Some((*x as i64 - 2500) * 20)
            },
            _ => None,
        }
    }

    /// Speed in millimeters per second, as FIT stores it.
    pub fn as_speed(&self) -> (r: Option<u16>)
        ensures
            r == spec_as_speed(*self),
    {
        match self {
            FieldValue::UInt16(x) => if *x == 0xFFFF {
                None
            } else {
                Some(*x)
            },
            _ => None,
        }
    }

    /// Cumulative distance in centimeters, as FIT stores it.
    pub fn as_distance(&self) -> (r: Option<u32>)
        ensures
            r == spec_as_distance(*self),
    {
        match self {
            FieldValue::UInt32(x) => if *x == 0xFFFF_FFFF {
                None
            } else {
                Some(*x)
            },
            _ => None,
        }
    }

    /// Power in watts.
    pub fn as_power(&self) -> (r: Option<u16>)
        ensures
            r == spec_as_power(*self),
    {
        match self {
            FieldValue::UInt16(x) => if *x == 0xFFFF {
                None
            } else {
                Some(*x)
            },
            FieldValue::UInt8(x) => if *x == 0xFF {
                None
            } else {
                Some(*x as u16)
            },
            _ => None,
        }
    }

    /// Elapsed time in milliseconds, as FIT stores it.
    pub fn as_duration(&self) -> (r: Option<u32>)
        ensures
            r == spec_as_duration(*self),
    {
        match self {
            FieldValue::UInt32(x) => if *x == 0xFFFF_FFFF {
                None
            } else {
                Some(*x)
            },
            _ => None,
        }
    }
}

} // verus!
