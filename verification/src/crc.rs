//! FIT's 16-bit checksum.  Each byte is folded in low nibble first, through a
//! 16-entry table; the accumulator starts at zero and spans a whole sub-file,
//! header included.
use vstd::prelude::*;

verus! {

/// The checksum table, indexed by the low four bits of `accumulator ^ nibble`.
pub open spec fn crc_table(i: int) -> u16 {
    if i == 0 {
        0x0000
    } else if i == 1 {
        0xCC01
    } else if i == 2 {
        0xD801
    } else if i == 3 {
        0x1400
    } else if i == 4 {
        0xF001
    } else if i == 5 {
        0x3C00
    } else if i == 6 {
        0x2800
    } else if i == 7 {
        0xE401
    } else if i == 8 {
        0xA001
    } else if i == 9 {
        0x6C00
    } else if i == 10 {
        0x7800
    } else if i == 11 {
        0xB401
    } else if i == 12 {
        0x5000
    } else if i == 13 {
        0x9C01
    } else if i == 14 {
        0x8801
    } else {
        0x4400
    }
}

/// One nibble folded into the accumulator.
pub open spec fn crc_nibble(crc: u16, nib: u16) -> u16 {
    (crc >> 4) ^ crc_table(((crc ^ nib) & 0xF) as int)
}

/// One byte folded into the accumulator, low nibble first.
pub open spec fn crc_byte(crc: u16, b: u8) -> u16 {
    crc_nibble(crc_nibble(crc, (b & 0xF) as u16), (b >> 4) as u16)
}

/// A byte sequence folded into the accumulator, in order.
pub open spec fn crc_extend(init: u16, s: Seq<u8>) -> u16
    decreases s.len(),
{
    if s.len() == 0 {
        init
    } else {
        crc_byte(crc_extend(init, s.drop_last()), s.last())
    }
}

/// The checksum of a byte sequence, from a zero accumulator.
pub open spec fn crc16(s: Seq<u8>) -> u16 {
    crc_extend(0, s)
}

fn table_at(i: u16) -> (r: u16)
    requires
        i < 16,
    ensures
        r == crc_table(i as int),
{
    match i {
        0 => 0x0000,
        1 => 0xCC01,
        2 => 0xD801,
        3 => 0x1400,
        4 => 0xF001,
        5 => 0x3C00,
        6 => 0x2800,
        7 => 0xE401,
        8 => 0xA001,
        9 => 0x6C00,
        10 => 0x7800,
        11 => 0xB401,
        12 => 0x5000,
        13 => 0x9C01,
        14 => 0x8801,
        _ => 0x4400,
    }
}

/// Fold one byte into the accumulator.
pub fn update(crc: u16, b: u8) -> (r: u16)
    ensures
        r == crc_byte(crc, b),
{
    let nib1: u16 = (b & 0xF) as u16;
    let i1: u16 = (crc ^ nib1) & 0xF;
    assert(i1 < 16) by (bit_vector)
        requires
            i1 == (crc ^ nib1) & 0xF,
    ;
    let c1: u16 = (crc >> 4) ^ table_at(i1);
    assert(c1 == crc_nibble(crc, nib1));

    let nib2: u16 = (b >> 4) as u16;
    let i2: u16 = (c1 ^ nib2) & 0xF;
    assert(i2 < 16) by (bit_vector)
        requires
            i2 == (c1 ^ nib2) & 0xF,
    ;
    let c2: u16 = (c1 >> 4) ^ table_at(i2);
    assert(c2 == crc_nibble(c1, nib2));
    c2
}

/// Fold the bytes of `data` between `start` and `end` into the accumulator.
pub fn update_region(crc: u16, data: &[u8], start: usize, end: usize) -> (r: u16)
    requires
        start <= end <= data@.len(),
    ensures
        r == crc_extend(crc, data@.subrange(start as int, end as int)),
{
    let mut acc: u16 = crc;
    let mut i: usize = start;
    while i < end
        invariant
            start <= i <= end <= data@.len(),
            acc == crc_extend(crc, data@.subrange(start as int, i as int)),
        decreases end - i,
    {
        acc = update(acc, data[i]);
        proof {
            let pre = data@.subrange(start as int, i as int);
            let post = data@.subrange(start as int, i + 1 as int);
            assert(post.drop_last() =~= pre);
            assert(post.last() == data@[i as int]);
        }
        i = i + 1;
    }
    proof {
        if start == end {
            assert(data@.subrange(start as int, end as int).len() == 0);
        }
    }
    acc
}

} // verus!
