//! Reading fixed-width scalars from a byte slice, at either endianness.
//!
//! These are the cursor primitives of the decoder: each read names its
//! position, and its contract gives the value as arithmetic over the bytes.
use vstd::prelude::*;

verus! {

/// The little-endian unsigned 16-bit value of two bytes.
pub open spec fn le_u16(s: Seq<u8>) -> u16
    recommends
        s.len() == 2,
{
    (s[0] + s[1] * 0x100) as u16
}

/// The big-endian unsigned 16-bit value of two bytes.
pub open spec fn be_u16(s: Seq<u8>) -> u16
    recommends
        s.len() == 2,
{
    (s[1] + s[0] * 0x100) as u16
}

/// The little-endian unsigned 32-bit value of four bytes.
pub open spec fn le_u32(s: Seq<u8>) -> u32
    recommends
        s.len() == 4,
{
    (s[0] + s[1] * 0x100 + s[2] * 0x10000 + s[3] * 0x1000000) as u32
}

/// The big-endian unsigned 32-bit value of four bytes.
pub open spec fn be_u32(s: Seq<u8>) -> u32
    recommends
        s.len() == 4,
{
    (s[3] + s[2] * 0x100 + s[1] * 0x10000 + s[0] * 0x1000000) as u32
}

/// The little-endian unsigned 64-bit value of eight bytes.
pub open spec fn le_u64(s: Seq<u8>) -> u64
    recommends
        s.len() == 8,
{
    (s[0] + s[1] * 0x100 + s[2] * 0x10000 + s[3] * 0x1000000 + s[4] * 0x100000000 + s[5]
        * 0x10000000000 + s[6] * 0x1000000000000 + s[7] * 0x100000000000000) as u64
}

/// The big-endian unsigned 64-bit value of eight bytes.
pub open spec fn be_u64(s: Seq<u8>) -> u64
    recommends
        s.len() == 8,
{
    (s[7] + s[6] * 0x100 + s[5] * 0x10000 + s[4] * 0x1000000 + s[3] * 0x100000000 + s[2]
        * 0x10000000000 + s[1] * 0x1000000000000 + s[0] * 0x100000000000000) as u64
}

/// The unsigned 16-bit value of two bytes at the given endianness.
pub open spec fn scalar_u16(s: Seq<u8>, big: bool) -> u16 {
    if big {
        be_u16(s)
    } else {
        le_u16(s)
    }
}

/// The unsigned 32-bit value of four bytes at the given endianness.
pub open spec fn scalar_u32(s: Seq<u8>, big: bool) -> u32 {
    if big {
        be_u32(s)
    } else {
        le_u32(s)
    }
}

/// The unsigned 64-bit value of eight bytes at the given endianness.
pub open spec fn scalar_u64(s: Seq<u8>, big: bool) -> u64 {
    if big {
        be_u64(s)
    } else {
        le_u64(s)
    }
}

/// The two's-complement reinterpretation of an unsigned 8-bit value.
pub open spec fn i8_of(u: u8) -> i8 {
    if u < 0x80 {
        u as i8
    } else {
        (u - 0x100) as i8
    }
}

/// The two's-complement reinterpretation of an unsigned 16-bit value.
pub open spec fn i16_of(u: u16) -> i16 {
    if u < 0x8000 {
        u as i16
    } else {
        (u - 0x10000) as i16
    }
}

/// The two's-complement reinterpretation of an unsigned 32-bit value.
pub open spec fn i32_of(u: u32) -> i32 {
    if u < 0x80000000 {
        u as i32
    } else {
        (u - 0x100000000) as i32
    }
}

/// The two's-complement reinterpretation of an unsigned 64-bit value.
pub open spec fn i64_of(u: u64) -> i64 {
    if u < 0x8000000000000000 {
        u as i64
    } else {
        (u - 0x10000000000000000) as i64
    }
}

/// Reinterpret an unsigned 8-bit value as signed, keeping the bit pattern.
pub fn u8_to_i8(u: u8) -> (r: i8)
    ensures
        r == i8_of(u),
{
    if u < 0x80 {
        u as i8
    } else {
        let m: u16 = 0x100 - (u as u16);
        -((m - 1) as i8) - 1
    }
}

/// Reinterpret an unsigned 16-bit value as signed, keeping the bit pattern.
pub fn u16_to_i16(u: u16) -> (r: i16)
    ensures
        r == i16_of(u),
{
    if u < 0x8000 {
        u as i16
    } else {
        let m: u32 = 0x10000 - (u as u32);
        -((m - 1) as i16) - 1
    }
}

/// Reinterpret an unsigned 32-bit value as signed, keeping the bit pattern.
pub fn u32_to_i32(u: u32) -> (r: i32)
    ensures
        r == i32_of(u),
{
    if u < 0x80000000 {
        u as i32
    } else {
        let m: u64 = 0x100000000 - (u as u64);
        -((m - 1) as i32) - 1
    }
}

/// Reinterpret an unsigned 64-bit value as signed, keeping the bit pattern.
pub fn u64_to_i64_bits(u: u64) -> (r: i64)
    ensures
        r == i64_of(u),
{
    if u < 0x8000000000000000 {
        u as i64
    } else {
        let m: u64 = (0xffffffffffffffff - u) + 1;
        -((m - 1) as i64) - 1
    }
}

/// Read one byte.
pub fn read_u8(data: &[u8], pos: usize) -> (r: u8)
    requires
        pos < data@.len(),
    ensures
        r == data@[pos as int],
{
    data[pos]
}

/// Read two bytes as an unsigned 16-bit value at the given endianness.
pub fn read_u16(data: &[u8], pos: usize, big: bool) -> (r: u16)
    requires
        pos + 2 <= data@.len(),
    ensures
        r == scalar_u16(data@.subrange(pos as int, pos + 2), big),
{
    let b0 = data[pos];
    let b1 = data[pos + 1];
    if big {
        (b1 as u16) + (b0 as u16) * 0x100
    } else {
        (b0 as u16) + (b1 as u16) * 0x100
    }
}

/// Read four bytes as an unsigned 32-bit value at the given endianness.
pub fn read_u32(data: &[u8], pos: usize, big: bool) -> (r: u32)
    requires
        pos + 4 <= data@.len(),
    ensures
        r == scalar_u32(data@.subrange(pos as int, pos + 4), big),
{
    let b0 = data[pos];
    let b1 = data[pos + 1];
    let b2 = data[pos + 2];
    let b3 = data[pos + 3];
    if big {
        (b3 as u32) + (b2 as u32) * 0x100 + (b1 as u32) * 0x10000 + (b0 as u32) * 0x1000000
    } else {
        (b0 as u32) + (b1 as u32) * 0x100 + (b2 as u32) * 0x10000 + (b3 as u32) * 0x1000000
    }
}

/// Read eight bytes as an unsigned 64-bit value at the given endianness.
pub fn read_u64(data: &[u8], pos: usize, big: bool) -> (r: u64)
    requires
        pos + 8 <= data@.len(),
    ensures
        r == scalar_u64(data@.subrange(pos as int, pos + 8), big),
{
    let b0 = data[pos];
    let b1 = data[pos + 1];
    let b2 = data[pos + 2];
    let b3 = data[pos + 3];
    let b4 = data[pos + 4];
    let b5 = data[pos + 5];
    let b6 = data[pos + 6];
    let b7 = data[pos + 7];
    if big {
        (b7 as u64) + (b6 as u64) * 0x100 + (b5 as u64) * 0x10000 + (b4 as u64) * 0x1000000 + (
        b3 as u64) * 0x100000000 + (b2 as u64) * 0x10000000000 + (b1 as u64) * 0x1000000000000 + (
        b0 as u64) * 0x100000000000000
    } else {
        (b0 as u64) + (b1 as u64) * 0x100 + (b2 as u64) * 0x10000 + (b3 as u64) * 0x1000000 + (
        b4 as u64) * 0x100000000 + (b5 as u64) * 0x10000000000 + (b6 as u64) * 0x1000000000000 + (
        b7 as u64) * 0x100000000000000
    }
}

/// True when `k` is where the NUL-terminated prefix of `s` ends: every byte
/// before `k` is nonzero, and the byte at `k`, if any, is zero.
pub open spec fn is_nul_split(s: Seq<u8>, k: int) -> bool {
    &&& 0 <= k <= s.len()
    &&& forall|j: int| 0 <= j < k ==> s[j] != 0
    &&& k < s.len() ==> s[k] == 0
}

/// Find where the NUL-terminated prefix of a byte slice ends.
pub fn nul_prefix_end(data: &[u8]) -> (k: usize)
    ensures
        is_nul_split(data@, k as int),
{
    let mut i: usize = 0;
    while i < data.len()
        invariant
            i <= data@.len(),
            forall|j: int| 0 <= j < i ==> data@[j] != 0,
        decreases data@.len() - i,
    {
        if data[i] == 0 {
            return i;
        }
        i = i + 1;
    }
    i
}

} // verus!
