//! Little-endian integer readers over a byte buffer.

use vstd::prelude::*;

verus! {

/// Value of the two bytes at `pos` read little-endian.
pub open spec fn le_u16_val(data: Seq<u8>, pos: int) -> int {
    data[pos] + data[pos + 1] * 0x100
}

/// Value of the four bytes at `pos` read little-endian.
pub open spec fn le_u32_val(data: Seq<u8>, pos: int) -> int {
    data[pos] + data[pos + 1] * 0x100 + data[pos + 2] * 0x1_0000 + data[pos + 3] * 0x100_0000
}

/// The signed reading of a sixteen-bit two's-complement value.
pub open spec fn sint16_of(u: int) -> int {
    if u < 0x8000 {
        u
    } else {
        u - 0x1_0000
    }
}

/// The signed reading of an eight-bit two's-complement value.
pub open spec fn sint8_of(u: int) -> int {
    if u < 0x80 {
        u
    } else {
        u - 0x100
    }
}

/// The signed reading of a thirty-two-bit two's-complement value.
pub open spec fn sint32_of(u: int) -> int {
    if u < 0x8000_0000 {
        u
    } else {
        u - 0x1_0000_0000
    }
}

pub fn read_u16_le(data: &[u8], pos: usize) -> (r: u16)
    requires
        pos + 2 <= data@.len(),
    ensures
        r == le_u16_val(data@, pos as int),
{
    let b0 = data[pos] as u16;
    let b1 = data[pos + 1] as u16;
    b0 + b1 * 0x100
}

pub fn read_u32_le(data: &[u8], pos: usize) -> (r: u32)
    requires
        pos + 4 <= data@.len(),
    ensures
        r == le_u32_val(data@, pos as int),
{
    let b0 = data[pos] as u32;
    let b1 = data[pos + 1] as u32;
    let b2 = data[pos + 2] as u32;
    let b3 = data[pos + 3] as u32;
    b0 + b1 * 0x100 + b2 * 0x1_0000 + b3 * 0x100_0000
}

pub fn read_i16_le(data: &[u8], pos: usize) -> (r: i16)
    requires
        pos + 2 <= data@.len(),
    ensures
        r == sint16_of(le_u16_val(data@, pos as int)),
{
    let u = read_u16_le(data, pos);
    if u < 0x8000 {
        u as i16
    } else {
        let d: i32 = 0x1_0000 - (u as i32);
        (-d) as i16
    }
}

pub fn read_i32_le(data: &[u8], pos: usize) -> (r: i32)
    requires
        pos + 4 <= data@.len(),
    ensures
        r == sint32_of(le_u32_val(data@, pos as int)),
{
    let u = read_u32_le(data, pos);
    if u < 0x8000_0000 {
        u as i32
    } else {
        let d: i64 = 0x1_0000_0000 - (u as i64);
        (-d) as i32
    }
}

pub fn u8_as_i8_value(u: u8) -> (r: i16)
    ensures
        r == sint8_of(u as int),
{
    if u < 0x80 {
        u as i16
    } else {
        let d: i16 = 0x100 - (u as i16);
        -d
    }
}

} // verus!
