//! The decoder proper: typed value decoding, the data-record parser driven by
//! the live definition table, the developer-field registry, compressed
//! timestamps, and the chained-file driver.
use vstd::prelude::*;
use vstd::slice::slice_subrange;
use vstd::string::StringExecFns;

use crate::crc;
use crate::defs::{
    base_type_of, base_width, invalid_byte, record_header_of, valid_header_at, BaseType,
    LocalDefinition, RecordHeader,
};
use crate::error::ErrorKind;
use crate::parser;
use crate::profile;
use crate::{FitDataField, FitDataRecord, Value};

verus! {

/// Seconds from the POSIX epoch to the FIT epoch, 1989-12-31T00:00:00Z.
pub const FIT_EPOCH_OFFSET: i64 = 631065600;

/// FIT `date_time` values below this count seconds since device power-on,
/// not since the FIT epoch, and are kept as plain unsigned values.
pub const MIN_ABSOLUTE_TIMESTAMP: u32 = 0x10000000;

/// The typed value one element of a non-string field decodes to.  Strings
/// are decoded separately, so the `String` arm is never consulted; it is
/// present only to keep the match total.
pub open spec fn elem_value(bt: BaseType, s: Seq<u8>, big: bool) -> Value
    recommends
        s.len() == base_width(bt),
{
    match bt {
        BaseType::Enum => Value::Enum(s[0]),
        BaseType::SInt8 => Value::SInt8(parser::i8_of(s[0])),
        BaseType::UInt8 => Value::UInt8(s[0]),
        BaseType::UInt8z => Value::UInt8z(s[0]),
        BaseType::Byte => Value::Byte(s[0]),
        BaseType::SInt16 => Value::SInt16(parser::i16_of(parser::scalar_u16(s, big))),
        BaseType::UInt16 => Value::UInt16(parser::scalar_u16(s, big)),
        BaseType::UInt16z => Value::UInt16z(parser::scalar_u16(s, big)),
        BaseType::SInt32 => Value::SInt32(parser::i32_of(parser::scalar_u32(s, big))),
        BaseType::UInt32 => Value::UInt32(parser::scalar_u32(s, big)),
        BaseType::UInt32z => Value::UInt32z(parser::scalar_u32(s, big)),
        BaseType::Float32 => Value::Float32(parser::scalar_u32(s, big)),
        BaseType::SInt64 => Value::SInt64(parser::i64_of(parser::scalar_u64(s, big))),
        BaseType::UInt64 => Value::UInt64(parser::scalar_u64(s, big)),
        BaseType::UInt64z => Value::UInt64z(parser::scalar_u64(s, big)),
        BaseType::Float64 => Value::Float64(parser::scalar_u64(s, big)),
        BaseType::String => Value::Enum(0),
    }
}

/// Whether every byte of the field at `pos` is the base type's invalid
/// sentinel byte; such a field is dropped from the emitted record.
pub open spec fn field_all_invalid(s: Seq<u8>, pos: int, size: int, bt: BaseType) -> bool {
    forall|j: int| pos <= j < pos + size ==> s[j] == invalid_byte(bt)
}

/// How a decoded non-string field value relates to its bytes: a single
/// element stands alone, several form an array in order.
pub open spec fn field_value_matches(
    v: Value,
    s: Seq<u8>,
    pos: int,
    size: int,
    bt: BaseType,
    big: bool,
) -> bool {
    let w = base_width(bt);
    if size == w {
        v == elem_value(bt, s.subrange(pos, pos + w), big)
    } else {
        v matches Value::Array(vs) && vs@.len() == size / w && (forall|i: int|
            0 <= i < size / w ==> vs@[i] == elem_value(
                bt,
                s.subrange(pos + i * w, pos + i * w + w),
                big,
            ))
    }
}

/// Relies on core::str::from_utf8: it succeeds on exactly the valid UTF-8
/// byte sequences, and then yields their decoding.
#[verifier::external_body]
fn utf8_to_string(b: &[u8]) -> (r: Option<String>)
    ensures
        r is Some <==> vstd::utf8::valid_utf8(b@),
        r matches Some(st) ==> st@ == vstd::utf8::decode_utf8(b@),
{
    match core::str::from_utf8(b) {
        Ok(s) => Some(String::from_str(s)),
        Err(_) => None,
    }
}

/// Decode one non-string element at `pos`.
fn decode_elem(data: &[u8], pos: usize, bt: BaseType, big: bool) -> (r: Value)
    requires
        bt != BaseType::String,
        pos + base_width(bt) <= data@.len(),
    ensures
        r == elem_value(bt, data@.subrange(pos as int, pos + base_width(bt)), big),
{
    match bt {
        BaseType::Enum => Value::Enum(parser::read_u8(data, pos)),
        BaseType::SInt8 => Value::SInt8(parser::u8_to_i8(parser::read_u8(data, pos))),
        BaseType::UInt8 => Value::UInt8(parser::read_u8(data, pos)),
        BaseType::UInt8z => Value::UInt8z(parser::read_u8(data, pos)),
        BaseType::Byte => Value::Byte(parser::read_u8(data, pos)),
        BaseType::SInt16 => Value::SInt16(parser::u16_to_i16(parser::read_u16(data, pos, big))),
        BaseType::UInt16 => Value::UInt16(parser::read_u16(data, pos, big)),
        BaseType::UInt16z => Value::UInt16z(parser::read_u16(data, pos, big)),
        BaseType::SInt32 => Value::SInt32(parser::u32_to_i32(parser::read_u32(data, pos, big))),
        BaseType::UInt32 => Value::UInt32(parser::read_u32(data, pos, big)),
        BaseType::UInt32z => Value::UInt32z(parser::read_u32(data, pos, big)),
        BaseType::Float32 => Value::Float32(parser::read_u32(data, pos, big)),
        BaseType::SInt64 => Value::SInt64(parser::u64_to_i64_bits(parser::read_u64(data, pos, big))),
        BaseType::UInt64 => Value::UInt64(parser::read_u64(data, pos, big)),
        BaseType::UInt64z => Value::UInt64z(parser::read_u64(data, pos, big)),
        BaseType::Float64 => Value::Float64(parser::read_u64(data, pos, big)),
        BaseType::String => Value::Enum(0),
    }
}

/// Whether all bytes in `[pos, pos + size)` equal `b`.
fn region_all_equal(data: &[u8], pos: usize, size: usize, b: u8) -> (r: bool)
    requires
        pos + size <= data@.len(),
    ensures
        r == (forall|j: int| pos <= j < pos + size ==> data@[j] == b),
{
    let dlen: usize = data.len();
    let mut i: usize = 0;
    while i < size
        invariant
            i <= size,
            pos + size <= dlen,
            dlen == data@.len(),
            forall|j: int| pos <= j < pos + i ==> data@[j] == b,
        decreases size - i,
    {
        if data[pos + i] != b {
            return false;
        }
        i = i + 1;
    }
    true
}

/// Decode the field at `pos` into a typed value, or into nothing when every
/// element is the base type's invalid sentinel.  A string field is taken up
/// to its first NUL byte; it is dropped when it starts with NUL (the
/// all-invalid pattern of the string type), and it is malformed when the
/// prefix is not valid UTF-8.
pub fn decode_field_value(data: &[u8], pos: usize, size: u8, bt: BaseType, big: bool) -> (r: Result<
    Option<Value>,
    ErrorKind,
>)
    requires
        pos + size <= data@.len(),
        size as int % base_width(bt) == 0,
    ensures
        bt != BaseType::String ==> r is Ok,
        bt != BaseType::String ==> ((r matches Ok(o) && o is None) <==> field_all_invalid(
            data@,
            pos as int,
            size as int,
            bt,
        )),
        bt != BaseType::String ==> (r matches Ok(o) ==> (o matches Some(v) ==> field_value_matches(
            v,
            data@,
            pos as int,
            size as int,
            bt,
            big,
        ))),
        bt == BaseType::String ==> ((r matches Ok(o) && o is None) <==> (size == 0
            || data@[pos as int] == 0)),
        bt == BaseType::String ==> (r is Ok <==> (size == 0 || data@[pos as int] == 0 || exists|
            k: int,
        |
            #[trigger] parser::is_nul_split(data@.subrange(pos as int, pos + size), k)
                && vstd::utf8::valid_utf8(data@.subrange(pos as int, pos + size).take(k)))),
        bt == BaseType::String ==> (r matches Ok(o) ==> (o matches Some(v) ==> exists|k: int|
            {
                &&& #[trigger] parser::is_nul_split(data@.subrange(pos as int, pos + size), k)
                &&& vstd::utf8::valid_utf8(data@.subrange(pos as int, pos + size).take(k))
                &&& v matches Value::String(st) && st@ == vstd::utf8::decode_utf8(
                    data@.subrange(pos as int, pos + size).take(k),
                )
            })),
{
    let dlen: usize = data.len();
    if let BaseType::String = bt {
        let field = slice_subrange(data, pos, pos + size as usize);
        let k = parser::nul_prefix_end(field);
        if k == 0 {
            return Ok(None);
        }
        let prefix = slice_subrange(field, 0, k);
        proof {
            assert(field@.subrange(0, k as int) =~= data@.subrange(pos as int, pos + size).take(
                k as int,
            ));
        }
        match utf8_to_string(prefix) {
            Some(st) => {
                proof {
                    let sub = data@.subrange(pos as int, pos + size);
                    assert(parser::is_nul_split(sub, k as int));
                    assert(st@ == vstd::utf8::decode_utf8(sub.take(k as int)));
                }
                Ok(Some(Value::String(st)))
            },
            None => {
                proof {
                    let sub = data@.subrange(pos as int, pos + size);
                    assert forall|k2: int| parser::is_nul_split(sub, k2) implies k2 == k as int by {
                        if k2 < k {
                            assert(sub[k2] != 0);
                            assert(sub[k2] == 0);
                        }
                        if k2 > k {
                            assert(sub[k as int] != 0);
                            assert(sub[k as int] == 0);
                        }
                    }
                }
                Err(ErrorKind::ParseError(pos, String::from_str("malformed utf-8 string")))
            },
        }
    } else {
        let width = bt.width();
        if region_all_equal(data, pos, size as usize, if is_zero_invalid_exec(bt) {
            0
        } else {
            0xFF
        }) {
            return Ok(None);
        }
        let count = size as usize / width;
        proof {
            vstd::arithmetic::div_mod::lemma_fundamental_div_mod(size as int, width as int);
        }
        if count == 1 {
            Ok(Some(decode_elem(data, pos, bt, big)))
        } else {
            let mut elems: Vec<Value> = Vec::new();
            let mut i: usize = 0;
            proof {
                vstd::arithmetic::div_mod::lemma_div_pos_is_pos(size as int, width as int);
                vstd::arithmetic::div_mod::lemma_fundamental_div_mod(size as int, width as int);
            }
            while i < count
                invariant
                    i <= count,
                    count == size as int / base_width(bt),
                    width == base_width(bt),
                    count * width == size,
                    bt != BaseType::String,
                    pos + size <= dlen,
                    dlen == data@.len(),
                    elems@.len() == i,
                    forall|j: int|
                        0 <= j < i ==> elems@[j] == elem_value(
                            bt,
                            data@.subrange(
                                pos + j * base_width(bt),
                                pos + j * base_width(bt) + base_width(bt),
                            ),
                            big,
                        ),
                decreases count - i,
            {
                proof {
                    assert(i * width + width <= count * width) by (nonlinear_arith)
                        requires
                            i < count,
                            width >= 1,
                    ;
                }
                let v = decode_elem(data, pos + i * width, bt, big);
                elems.push(v);
                i = i + 1;
            }
            Ok(Some(Value::Array(elems)))
        }
    }
}

fn is_zero_invalid_exec(bt: BaseType) -> (r: bool)
    ensures
        r == crate::defs::is_zero_invalid(bt),
{
    match bt {
        BaseType::UInt8z => true,
        BaseType::UInt16z => true,
        BaseType::UInt32z => true,
        BaseType::UInt64z => true,
        BaseType::String => true,
        _ => false,
    }
}

/// The next rolling timestamp after a compressed-timestamp header: the five
/// offset bits replace the low bits of the last absolute timestamp, rolling
/// the high bits forward (modulo 2^32) when the offset wrapped around.
pub open spec fn roll_timestamp(last: u32, off: u8) -> u32 {
    let base = (last & 0xFFFFFFE0) | (off as u32);
    if (off as u32) < (last & 0x1F) {
        if base <= 0xFFFFFFDF {
            (base + 0x20) as u32
        } else {
            (base - 0xFFFFFFE0) as u32
        }
    } else {
        base
    }
}

/// Compute the next rolling timestamp.
pub fn advance_timestamp(last: u32, off: u8) -> (r: u32)
    ensures
        r == roll_timestamp(last, off),
{
    let base: u32 = (last & 0xFFFFFFE0) | (off as u32);
    if (off as u32) < (last & 0x1F) {
        if base <= 0xFFFFFFDF {
            base + 0x20
        } else {
            base - 0xFFFFFFE0
        }
    } else {
        base
    }
}

/// One step of the rolling reconstruction never goes backwards, and advances
/// by at most 32 seconds, as long as the timestamp is far from wrapping.
pub proof fn lemma_roll_timestamp_bounds(last: u32, off: u8)
    requires
        off < 32,
        last <= 0xFFFFFFDF,
    ensures
        last <= roll_timestamp(last, off),
        roll_timestamp(last, off) <= last + 0x20,
{
    assert(last <= roll_timestamp(last, off) && roll_timestamp(last, off) <= last + 0x20)
        by (bit_vector)
        requires
            off < 32,
            last <= 0xFFFFFFDF,
    ;
}

/// The timestamps a run of compressed-timestamp records reconstructs, in
/// order, starting from the last absolute timestamp `t0`.
pub open spec fn rolled_timestamps(t0: u32, offs: Seq<u8>) -> Seq<u32>
    decreases offs.len(),
{
    if offs.len() == 0 {
        Seq::empty()
    } else {
        let first = roll_timestamp(t0, offs[0]);
        seq![first] + rolled_timestamps(first, offs.subrange(1, offs.len() as int))
    }
}

/// For any absolute timestamp and any run of five-bit offsets, the
/// reconstructed timestamps form a monotonically nondecreasing sequence, as
/// long as the run stays clear of the 32-bit wrap.
pub proof fn lemma_rolled_timestamps_monotone(t0: u32, offs: Seq<u8>)
    requires
        forall|i: int| 0 <= i < offs.len() ==> offs[i] < 32,
        t0 + 0x20 * offs.len() <= 0xFFFFFFFF,
    ensures
        rolled_timestamps(t0, offs).len() == offs.len(),
        forall|i: int| 0 <= i < offs.len() ==> t0 <= #[trigger] rolled_timestamps(t0, offs)[i],
        forall|i: int|
            0 <= i < offs.len() ==> #[trigger] rolled_timestamps(t0, offs)[i] <= t0 + 0x20 * (i
                + 1),
        forall|i: int|
            0 <= i && i + 1 < offs.len() ==> #[trigger] rolled_timestamps(t0, offs)[i]
                <= rolled_timestamps(t0, offs)[i + 1],
    decreases offs.len(),
{
    if offs.len() > 0 {
        lemma_roll_timestamp_bounds(t0, offs[0]);
        let first = roll_timestamp(t0, offs[0]);
        let tail = offs.subrange(1, offs.len() as int);
        lemma_rolled_timestamps_monotone(first, tail);
        let whole = rolled_timestamps(t0, offs);
        let rest = rolled_timestamps(first, tail);
        assert(whole =~= seq![first] + rest);
        assert forall|i: int| 0 <= i < offs.len() implies t0 <= #[trigger] whole[i] && whole[i]
            <= t0 + 0x20 * (i + 1) by {
            if i > 0 {
                assert(whole[i] == rest[i - 1]);
            }
        }
        assert forall|i: int| 0 <= i && i + 1 < offs.len() implies #[trigger] whole[i] <= whole[i
            + 1] by {
            if i == 0 {
                assert(whole[1] == rest[0]);
            } else {
                assert(whole[i] == rest[i - 1] && whole[i + 1] == rest[i]);
            }
        }
    }
}

/// The value an absolute FIT `date_time` reading decodes to: seconds since
/// the FIT epoch become POSIX seconds, while small values count seconds
/// since device power-on and stay plain unsigned values.
pub open spec fn timestamp_value(ts: u32) -> Value {
    if ts >= MIN_ABSOLUTE_TIMESTAMP {
        Value::Timestamp((ts + FIT_EPOCH_OFFSET) as i64)
    } else {
        Value::UInt32(ts)
    }
}

fn make_timestamp_value(ts: u32) -> (r: Value)
    ensures
        r == timestamp_value(ts),
{
    if ts >= MIN_ABSOLUTE_TIMESTAMP {
        Value::Timestamp(ts as i64 + FIT_EPOCH_OFFSET)
    } else {
        Value::UInt32(ts)
    }
}

/// What a `field_description` message registered about one developer field:
/// the key it is looked up by, its base type, and its display names.
pub struct DevFieldDescription {
    /// The developer data index the field belongs to.
    pub dev_index: u8,
    /// The field definition number within that index.
    pub number: u8,
    /// The registered base type developer data decodes with.
    pub base_type: BaseType,
    /// The registered field name.
    pub name: String,
    /// The registered units.
    pub units: String,
}

/// The index of the most recent registration for a developer field key, or
/// -1 when none exists.
pub open spec fn registration_index(reg: Seq<DevFieldDescription>, dev_index: u8, number: u8) -> int
    decreases reg.len(),
{
    if reg.len() == 0 {
        -1
    } else if reg.last().dev_index == dev_index && reg.last().number == number {
        reg.len() - 1
    } else {
        registration_index(reg.drop_last(), dev_index, number)
    }
}

/// The registration index is -1 or a position holding the looked-up key.
pub proof fn lemma_registration_index_bounds(
    reg: Seq<DevFieldDescription>,
    dev_index: u8,
    number: u8,
)
    ensures
        -1 <= registration_index(reg, dev_index, number) < reg.len(),
        registration_index(reg, dev_index, number) >= 0 ==> {
            let i = registration_index(reg, dev_index, number);
            reg[i].dev_index == dev_index && reg[i].number == number
        },
    decreases reg.len(),
{
    if reg.len() > 0 && !(reg.last().dev_index == dev_index && reg.last().number == number) {
        lemma_registration_index_bounds(reg.drop_last(), dev_index, number);
    }
}

/// Find the registration for a developer field, by developer data index and
/// field number.  The most recent registration wins.
fn registry_find(registry: &Vec<DevFieldDescription>, dev_index: u8, number: u8) -> (r: Option<
    usize,
>)
    ensures
        r matches Some(i) ==> i == registration_index(registry@, dev_index, number) && i
            < registry@.len() && registry@[i as int].dev_index == dev_index
            && registry@[i as int].number == number,
        r is None <==> registration_index(registry@, dev_index, number) == -1,
{
    let mut best: Option<usize> = None;
    let mut i: usize = 0;
    while i < registry.len()
        invariant
            i <= registry@.len(),
            best matches Some(b) ==> b < i && registry@[b as int].dev_index == dev_index
                && registry@[b as int].number == number && b == registration_index(
                registry@.take(i as int),
                dev_index,
                number,
            ),
            best is None ==> registration_index(registry@.take(i as int), dev_index, number) == -1,
        decreases registry@.len() - i,
    {
        proof {
            assert(registry@.take(i + 1).drop_last() =~= registry@.take(i as int));
            assert(registry@.take(i + 1).last() == registry@[i as int]);
            if registration_index(registry@.take(i as int), dev_index, number) == -1 {
            } else {
                lemma_registration_index_bounds(
                    registry@.take(i as int),
                    dev_index,
                    number,
                );
            }
        }
        if registry[i].dev_index == dev_index && registry[i].number == number {
            best = Some(i);
        }
        i = i + 1;
    }
    proof {
        assert(registry@.take(registry@.len() as int) =~= registry@);
    }
    best
}

/// The byte carried by the last field with this number whose value is a
/// plain byte (`UInt8` or `Enum`), if any.
pub open spec fn last_byte_value(fields: Seq<FitDataField>, num: u8) -> Option<u8>
    decreases fields.len(),
{
    if fields.len() == 0 {
        None
    } else {
        let f = fields.last();
        if f.spec_number() == num {
            match f.spec_value() {
                Value::UInt8(v) => Some(v),
                Value::Enum(v) => Some(v),
                _ => last_byte_value(fields.drop_last(), num),
            }
        } else {
            last_byte_value(fields.drop_last(), num)
        }
    }
}

/// The characters carried by the last field with this number whose value is
/// a string, if any.
pub open spec fn last_string_value(fields: Seq<FitDataField>, num: u8) -> Option<Seq<char>>
    decreases fields.len(),
{
    if fields.len() == 0 {
        None
    } else {
        let f = fields.last();
        if f.spec_number() == num {
            match f.spec_value() {
                Value::String(st) => Some(st@),
                _ => last_string_value(fields.drop_last(), num),
            }
        } else {
            last_string_value(fields.drop_last(), num)
        }
    }
}

/// Record what a decoded `field_description` message declares: the developer
/// data index (field 0), the field number (field 1), and the base type
/// (field 2) make the registration, with the name (field 3) and units
/// (field 8); the last reading of each wins.  A message missing any of the
/// three key pieces, or naming a base type outside the catalog, registers
/// nothing.
fn register_from_record(registry: &mut Vec<DevFieldDescription>, record: &FitDataRecord)
    ensures
        ({
            let fs = record.spec_fields();
            let d = last_byte_value(fs, 0);
            let n = last_byte_value(fs, 1);
            let tb = last_byte_value(fs, 2);
            let registered = d is Some && n is Some && tb is Some && base_type_of(tb.unwrap())
                is Some;
            &&& (!registered ==> final(registry)@ == old(registry)@)
            &&& (registered ==> {
                let entry = final(registry)@.last();
                &&& final(registry)@.len() == old(registry)@.len() + 1
                &&& (forall|j: int|
                    0 <= j < old(registry)@.len() ==> final(registry)@[j] == old(registry)@[j])
                &&& entry.dev_index == d.unwrap()
                &&& entry.number == n.unwrap()
                &&& entry.base_type == base_type_of(tb.unwrap()).unwrap()
                &&& entry.name@ == (match last_string_value(fs, 3) {
                    Some(st) => st,
                    None => Seq::<char>::empty(),
                })
                &&& entry.units@ == (match last_string_value(fs, 8) {
                    Some(st) => st,
                    None => Seq::<char>::empty(),
                })
            })
        }),
{
    let fields = record.fields();
    let mut dev_index: Option<u8> = None;
    let mut number: Option<u8> = None;
    let mut base_type: Option<BaseType> = None;
    let mut name = String::new();
    let mut units = String::new();
    let mut i: usize = 0;
    while i < fields.len()
        invariant
            i <= fields@.len(),
            fields@ == record.spec_fields(),
            dev_index == last_byte_value(fields@.take(i as int), 0),
            number == last_byte_value(fields@.take(i as int), 1),
            base_type == (match last_byte_value(fields@.take(i as int), 2) {
                Some(b) => base_type_of(b),
                None => None::<BaseType>,
            }),
            name@ == (match last_string_value(fields@.take(i as int), 3) {
                Some(st) => st,
                None => Seq::<char>::empty(),
            }),
            units@ == (match last_string_value(fields@.take(i as int), 8) {
                Some(st) => st,
                None => Seq::<char>::empty(),
            }),
        decreases fields@.len() - i,
    {
        proof {
            assert(fields@.take(i + 1).drop_last() =~= fields@.take(i as int));
            assert(fields@.take(i + 1).last() == fields@[i as int]);
        }
        let f = &fields[i];
        let fnum = f.number();
        let fval = f.value();
        if fnum == 0 {
            match fval {
                Value::UInt8(v) => {
                    dev_index = Some(*v);
                },
                Value::Enum(v) => {
                    dev_index = Some(*v);
                },
                _ => {},
            }
        } else if fnum == 1 {
            match fval {
                Value::UInt8(v) => {
                    number = Some(*v);
                },
                Value::Enum(v) => {
                    number = Some(*v);
                },
                _ => {},
            }
        } else if fnum == 2 {
            match fval {
                Value::UInt8(v) => {
                    base_type = BaseType::from_u8(*v);
                },
                Value::Enum(v) => {
                    base_type = BaseType::from_u8(*v);
                },
                _ => {},
            }
        } else if fnum == 3 {
            match fval {
                Value::String(s) => {
                    name = s.clone();
                },
                _ => {},
            }
        } else if fnum == 8 {
            match fval {
                Value::String(s) => {
                    units = s.clone();
                },
                _ => {},
            }
        }
        i = i + 1;
    }
    proof {
        assert(fields@.take(fields@.len() as int) =~= fields@);
    }
    match (dev_index, number, base_type) {
        (Some(d), Some(n), Some(bt)) => {
            registry.push(
                DevFieldDescription { dev_index: d, number: n, base_type: bt, name, units },
            );
        },
        _ => {},
    }
}

/// Byte offset of the `i`-th declared plain field's data, relative to the
/// record body: the sum of the sizes before it.
pub open spec fn plain_field_off(def: LocalDefinition, i: int) -> int
    decreases i,
{
    if i <= 0 {
        0
    } else {
        plain_field_off(def, i - 1) + def.fields@[i - 1].size
    }
}

/// Byte offset of the `k`-th developer field's data, relative to the record
/// body: all plain fields, then the developer sizes before it.
pub open spec fn dev_field_off(def: LocalDefinition, k: int) -> int
    decreases k,
{
    if k <= 0 {
        plain_field_off(def, def.fields@.len() as int)
    } else {
        dev_field_off(def, k - 1) + def.dev_fields@[k - 1].size
    }
}

/// The byte length of a data record for this definition: every declared
/// plain and developer size, in order.
pub open spec fn record_data_len(def: LocalDefinition) -> int {
    dev_field_off(def, def.dev_fields@.len() as int)
}

/// Plain-field offsets grow with the index.
pub proof fn lemma_plain_off_le(def: LocalDefinition, i: int, j: int)
    requires
        0 <= i <= j,
    ensures
        plain_field_off(def, i) <= plain_field_off(def, j),
    decreases j - i,
{
    if i < j {
        lemma_plain_off_le(def, i, j - 1);
    }
}

/// Developer-field offsets grow with the index.
pub proof fn lemma_dev_off_le(def: LocalDefinition, k: int, l: int)
    requires
        0 <= k <= l,
    ensures
        dev_field_off(def, k) <= dev_field_off(def, l),
    decreases l - k,
{
    if k < l {
        lemma_dev_off_le(def, k, l - 1);
    }
}

/// Whether the `i`-th declared plain field of a record at `pos` is dropped:
/// a string that starts with NUL (or is empty), or a field whose every byte
/// is the base type's invalid sentinel.
pub open spec fn plain_field_dropped(s: Seq<u8>, pos: int, def: LocalDefinition, i: int) -> bool {
    let off = pos + plain_field_off(def, i);
    let size = def.fields@[i].size as int;
    let bt = def.fields@[i].base_type;
    if bt == BaseType::String {
        size == 0 || s[off] == 0
    } else {
        field_all_invalid(s, off, size, bt)
    }
}

/// How many of the first `i` declared plain fields are emitted.
pub open spec fn plain_kept_before(s: Seq<u8>, pos: int, def: LocalDefinition, i: int) -> int
    decreases i,
{
    if i <= 0 {
        0
    } else {
        plain_kept_before(s, pos, def, i - 1) + (if plain_field_dropped(s, pos, def, i - 1) {
            0int
        } else {
            1int
        })
    }
}

/// The registered base type of the `k`-th developer field, by the most
/// recent registration of its key.
pub open spec fn dev_base_type(def: LocalDefinition, reg: Seq<DevFieldDescription>, k: int) -> BaseType {
    let dd = def.dev_fields@[k];
    reg[registration_index(reg, dd.dev_index, dd.number)].base_type
}

/// Whether the `k`-th developer field of a record at `pos` is dropped, by
/// the same sentinel rule as plain fields, under its registered base type.
pub open spec fn dev_field_dropped(
    s: Seq<u8>,
    pos: int,
    def: LocalDefinition,
    reg: Seq<DevFieldDescription>,
    k: int,
) -> bool {
    let off = pos + dev_field_off(def, k);
    let size = def.dev_fields@[k].size as int;
    let bt = dev_base_type(def, reg, k);
    if bt == BaseType::String {
        size == 0 || s[off] == 0
    } else {
        field_all_invalid(s, off, size, bt)
    }
}

/// How many of the first `k` developer fields are emitted.
pub open spec fn dev_kept_before(
    s: Seq<u8>,
    pos: int,
    def: LocalDefinition,
    reg: Seq<DevFieldDescription>,
    k: int,
) -> int
    decreases k,
{
    if k <= 0 {
        0
    } else {
        dev_kept_before(s, pos, def, reg, k - 1) + (if dev_field_dropped(s, pos, def, reg, k - 1) {
            0int
        } else {
            1int
        })
    }
}

/// What a decoded string value must hold: the UTF-8 decoding of the bytes
/// up to the field's first NUL.
pub open spec fn string_value_matches(v: Value, s: Seq<u8>, off: int, size: int) -> bool {
    exists|k: int|
        #[trigger] parser::is_nul_split(s.subrange(off, off + size), k) && (v matches Value::String(
            st,
        ) && st@ == vstd::utf8::decode_utf8(s.subrange(off, off + size).take(k)))
}

/// Whether the emitted value of the `i`-th plain field is right for its
/// bytes: strings decode their NUL-terminated prefix; a scalar `date_time`
/// reading becomes `timestamp_value`; everything else follows
/// `field_value_matches`.
pub open spec fn plain_field_value_ok(
    s: Seq<u8>,
    pos: int,
    def: LocalDefinition,
    i: int,
    v: Value,
) -> bool {
    let off = pos + plain_field_off(def, i);
    let fd = def.fields@[i];
    let size = fd.size as int;
    if fd.base_type == BaseType::String {
        string_value_matches(v, s, off, size)
    } else if profile::field_is_date_time(def.global, fd.number) && fd.base_type == BaseType::UInt32
        && size == 4 {
        v == timestamp_value(parser::scalar_u32(s.subrange(off, off + 4), def.big_endian))
    } else {
        field_value_matches(v, s, off, size, fd.base_type, def.big_endian)
    }
}

/// Whether the emitted value of the `k`-th developer field is right for its
/// bytes under its registered base type.
pub open spec fn dev_field_value_ok(
    s: Seq<u8>,
    pos: int,
    def: LocalDefinition,
    reg: Seq<DevFieldDescription>,
    k: int,
    v: Value,
) -> bool {
    let off = pos + dev_field_off(def, k);
    let size = def.dev_fields@[k].size as int;
    let bt = dev_base_type(def, reg, k);
    if bt == BaseType::String {
        string_value_matches(v, s, off, size)
    } else {
        field_value_matches(v, s, off, size, bt, def.big_endian)
    }
}

/// The rolling timestamp after the first `i` plain fields: each emitted
/// scalar `date_time` reading at or above `MIN_ABSOLUTE_TIMESTAMP` replaces
/// it, in declaration order.
pub open spec fn last_ts_after(s: Seq<u8>, pos: int, def: LocalDefinition, i: int, init: u32) -> u32
    decreases i,
{
    if i <= 0 {
        init
    } else {
        let prev = last_ts_after(s, pos, def, i - 1, init);
        let fd = def.fields@[i - 1];
        let off = pos + plain_field_off(def, i - 1);
        let reading = parser::scalar_u32(s.subrange(off, off + 4), def.big_endian);
        if profile::field_is_date_time(def.global, fd.number) && fd.base_type == BaseType::UInt32
            && fd.size == 4 && !plain_field_dropped(s, pos, def, i - 1) && reading
            >= MIN_ABSOLUTE_TIMESTAMP {
            reading
        } else {
            prev
        }
    }
}

/// Whether every string among the declared plain fields of the record at
/// `pos` is decodable: dropped, or valid UTF-8 up to its first NUL.
pub open spec fn plain_strings_ok(s: Seq<u8>, pos: int, def: LocalDefinition) -> bool {
    forall|i: int|
        0 <= i < def.fields@.len() ==> ((#[trigger] def.fields@[i]).base_type == BaseType::String
            && !plain_field_dropped(s, pos, def, i) ==> exists|k: int|
            #[trigger] parser::is_nul_split(
                s.subrange(
                    pos + plain_field_off(def, i),
                    pos + plain_field_off(def, i) + def.fields@[i].size,
                ),
                k,
            ) && vstd::utf8::valid_utf8(
                s.subrange(
                    pos + plain_field_off(def, i),
                    pos + plain_field_off(def, i) + def.fields@[i].size,
                ).take(k),
            ))
}

/// Whether every declared developer field of the record at `pos` can be
/// decoded: a registration exists, the declared size is a multiple of the
/// registered width, and a registered string is decodable.
pub open spec fn dev_decl_ok(
    s: Seq<u8>,
    pos: int,
    def: LocalDefinition,
    reg: Seq<DevFieldDescription>,
) -> bool {
    forall|k: int|
        0 <= k < def.dev_fields@.len() ==> {
            let dd = #[trigger] def.dev_fields@[k];
            &&& registration_index(reg, dd.dev_index, dd.number) >= 0
            &&& (dd.size as int) % base_width(dev_base_type(def, reg, k)) == 0
            &&& (dev_base_type(def, reg, k) == BaseType::String && !dev_field_dropped(
                s,
                pos,
                def,
                reg,
                k,
            ) ==> exists|k2: int|
                #[trigger] parser::is_nul_split(
                    s.subrange(
                        pos + dev_field_off(def, k),
                        pos + dev_field_off(def, k) + dd.size,
                    ),
                    k2,
                ) && vstd::utf8::valid_utf8(
                    s.subrange(
                        pos + dev_field_off(def, k),
                        pos + dev_field_off(def, k) + dd.size,
                    ).take(k2),
                ))
        }
}

/// When a data record parses: its declared bytes are present, every string
/// field is decodable, and every developer field has a usable registration.
pub open spec fn record_parse_ok(
    s: Seq<u8>,
    pos: int,
    def: LocalDefinition,
    reg: Seq<DevFieldDescription>,
) -> bool {
    &&& pos + record_data_len(def) <= s.len()
    &&& plain_strings_ok(s, pos, def)
    &&& dev_decl_ok(s, pos, def, reg)
}

/// Everything parsing one data record guarantees of the emitted record: its
/// kind, the synthetic compressed timestamp if any, and, field by field,
/// which declared fields are emitted and with what name, units and value.
pub open spec fn record_matches(
    s: Seq<u8>,
    body: int,
    def: LocalDefinition,
    reg: Seq<DevFieldDescription>,
    time_offset: Option<u8>,
    prior_ts: u32,
    rec: FitDataRecord,
) -> bool {
    let base: int = if time_offset is Some {
        1
    } else {
        0
    };
    &&& rec.spec_kind() == profile::mesg_num_of(def.global)
    &&& (time_offset matches Some(off) ==> {
        &&& rec.spec_fields().len() >= 1
        &&& rec.spec_fields()[0].spec_number() == 253
        &&& rec.spec_fields()[0].spec_name() == "timestamp"@
        &&& rec.spec_fields()[0].spec_value() == timestamp_value(roll_timestamp(prior_ts, off))
    })
    &&& rec.spec_fields().len() == base + plain_kept_before(s, body, def, def.fields@.len() as int)
        + dev_kept_before(s, body, def, reg, def.dev_fields@.len() as int)
    &&& (forall|q: int|
        0 <= q < def.fields@.len() && !(#[trigger] plain_field_dropped(s, body, def, q)) ==> {
            let j = base + plain_kept_before(s, body, def, q);
            &&& 0 <= j < rec.spec_fields().len()
            &&& rec.spec_fields()[j].spec_number() == def.fields@[q].number
            &&& rec.spec_fields()[j].spec_name() == profile::field_name_seq(
                def.global,
                def.fields@[q].number,
            )
            &&& rec.spec_fields()[j].spec_units() == profile::field_units_seq(
                def.global,
                def.fields@[q].number,
            )
            &&& plain_field_value_ok(s, body, def, q, rec.spec_fields()[j].spec_value())
        })
    &&& (forall|q: int|
        0 <= q < def.dev_fields@.len() && !(#[trigger] dev_field_dropped(s, body, def, reg, q))
            ==> {
            let j = base + plain_kept_before(s, body, def, def.fields@.len() as int)
                + dev_kept_before(s, body, def, reg, q);
            let idx = registration_index(
                reg,
                def.dev_fields@[q].dev_index,
                def.dev_fields@[q].number,
            );
            &&& 0 <= j < rec.spec_fields().len()
            &&& rec.spec_fields()[j].spec_number() == def.dev_fields@[q].number
            &&& rec.spec_fields()[j].spec_name() == reg[idx].name@
            &&& rec.spec_fields()[j].spec_units() == reg[idx].units@
            &&& dev_field_value_ok(s, body, def, reg, q, rec.spec_fields()[j].spec_value())
        })
}

/// Whether a definition value is the one the definition record body at `dp`
/// declares: endianness, global number, and every field triple.
pub open spec fn definition_matches_bytes(s: Seq<u8>, dp: int, def: LocalDefinition) -> bool {
    &&& def.big_endian == (s[dp + 1] != 0)
    &&& def.global == parser::scalar_u16(s.subrange(dp + 2, dp + 4), s[dp + 1] != 0)
    &&& def.fields@.len() == s[dp + 4]
    &&& (forall|i: int|
        0 <= i < def.fields@.len() ==> {
            &&& (#[trigger] def.fields@[i]).number == s[dp + 5 + 3 * i]
            &&& def.fields@[i].size == s[dp + 5 + 3 * i + 1]
            &&& Some(def.fields@[i].base_type) == base_type_of(s[dp + 5 + 3 * i + 2])
        })
    &&& (forall|k: int|
        0 <= k < def.dev_fields@.len() ==> {
            let b = dp + 5 + 3 * def.fields@.len() + 1;
            &&& (#[trigger] def.dev_fields@[k]).number == s[b + 3 * k]
            &&& def.dev_fields@[k].size == s[b + 3 * k + 1]
            &&& def.dev_fields@[k].dev_index == s[b + 3 * k + 2]
        })
}

/// The origin of one emitted record within a sub-file whose record bytes
/// span `[body_start, data_end)`: the record's body position, the position
/// of the definition record that governed it, the definition itself, the
/// developer registrations and rolling timestamp at that moment, and the
/// record header's classification.  The definition stood earlier in the
/// same sub-file, and the record decodes from its own bytes against it.
pub open spec fn record_origin_ok(
    s: Seq<u8>,
    body_start: int,
    data_end: int,
    origin: (int, int, LocalDefinition, Seq<DevFieldDescription>, Option<u8>, u32),
    rec: FitDataRecord,
) -> bool {
    let (body, defpos, def, reg, toff, prior) = origin;
    &&& def.well_formed()
    &&& body_start < body <= data_end
    &&& body_start <= defpos < body - 1
    &&& (record_header_of(s[defpos]) matches RecordHeader::Normal { definition: true, .. })
    &&& definition_matches_bytes(s, defpos + 1, def)
    &&& (match record_header_of(s[body - 1]) {
        RecordHeader::Normal { definition, developer: _, local: _ } => !definition && toff
            is None,
        RecordHeader::Compressed { local: _, offset } => toff == Some(offset),
    })
    &&& record_parse_ok(s, body, def, reg)
    &&& record_matches(s, body, def, reg, toff, prior, rec)
}

/// Whether `w` explains every record of a sub-file decode: element by
/// element, each emitted record arose from a data record inside the
/// sub-file's record bytes, governed by a definition record installed
/// earlier in the same sub-file.
pub open spec fn subfile_records_match(
    s: Seq<u8>,
    body_start: int,
    data_end: int,
    w: Seq<(int, int, LocalDefinition, Seq<DevFieldDescription>, Option<u8>, u32)>,
    recs: Seq<FitDataRecord>,
) -> bool {
    &&& w.len() == recs.len()
    &&& forall|j: int|
        0 <= j < w.len() ==> record_origin_ok(s, body_start, data_end, #[trigger] w[j], recs[j])
}

/// Whether some witness explains every emitted record of a sub-file decode
/// spanning `[start, end)`: each record arose from a data record inside the
/// sub-file's record bytes, governed by a definition record installed
/// earlier in the same sub-file.
#[verifier::opaque]
pub open spec fn subfile_decode_explained(
    s: Seq<u8>,
    start: int,
    end: int,
    recs: Seq<FitDataRecord>,
) -> bool {
    exists|
        body: int,
        dend: int,
        w: Seq<(int, int, LocalDefinition, Seq<DevFieldDescription>, Option<u8>, u32)>,
    |
        {
            &&& body == start + crate::defs::header_len(s, start)
            &&& dend == end - 2
            &&& #[trigger] subfile_records_match(s, body, dend, w, recs)
        }
}

/// Whether a field number is declared by the definition, among its plain
/// fields or its developer fields.
pub open spec fn declared_number(def: LocalDefinition, n: u8) -> bool {
    ||| exists|i: int| 0 <= i < def.fields@.len() && (#[trigger] def.fields@[i]).number == n
    ||| exists|i: int| 0 <= i < def.dev_fields@.len() && (#[trigger] def.dev_fields@[i]).number == n
}

/// Parse one data record at `pos` against its live definition.  Emits the
/// profile-resolved fields in declaration order, dropping a field exactly
/// when all its elements are the invalid sentinel; a compressed-timestamp
/// header contributes a leading synthetic `timestamp` field reconstructed by
/// `roll_timestamp`; an emitted scalar `date_time` reading updates the
/// rolling timestamp.  Developer fields decode against their most recent
/// registration, and an unregistered one is an error.  Succeeds exactly
/// when the declared bytes are present, every string field is decodable,
/// and every developer field has a usable registration.
pub fn parse_data_record(
    data: &[u8],
    pos: usize,
    def: &LocalDefinition,
    registry: &Vec<DevFieldDescription>,
    last_ts: &mut u32,
    time_offset: Option<u8>,
) -> (r: Result<(FitDataRecord, usize), ErrorKind>)
    requires
        pos <= data@.len(),
        def.well_formed(),
        time_offset matches Some(off) ==> off < 32,
    ensures
        r is Ok <==> record_parse_ok(data@, pos as int, *def, registry@),
        r matches Ok((rec, p)) ==> {
            let base: int = if time_offset is Some {
                1
            } else {
                0
            };
            let init: u32 = match time_offset {
                Some(off) => roll_timestamp(*old(last_ts), off),
                None => *old(last_ts),
            };
            &&& pos <= p <= data@.len()
            &&& p == pos + record_data_len(*def)
            &&& rec.spec_kind() == profile::mesg_num_of(def.global)
            &&& (time_offset matches Some(off) ==> {
                &&& rec.spec_fields().len() >= 1
                &&& rec.spec_fields()[0].spec_number() == 253
                &&& rec.spec_fields()[0].spec_name() == "timestamp"@
                &&& rec.spec_fields()[0].spec_value() == timestamp_value(
                    roll_timestamp(*old(last_ts), off),
                )
            })
            &&& rec.spec_fields().len() == base + plain_kept_before(
                data@,
                pos as int,
                *def,
                def.fields@.len() as int,
            ) + dev_kept_before(
                data@,
                pos as int,
                *def,
                registry@,
                def.dev_fields@.len() as int,
            )
            &&& (forall|q: int|
                0 <= q < def.fields@.len() && !(#[trigger] plain_field_dropped(
                    data@,
                    pos as int,
                    *def,
                    q,
                )) ==> {
                    let j = base + plain_kept_before(data@, pos as int, *def, q);
                    &&& 0 <= j < rec.spec_fields().len()
                    &&& rec.spec_fields()[j].spec_number() == def.fields@[q].number
                    &&& rec.spec_fields()[j].spec_name() == profile::field_name_seq(
                        def.global,
                        def.fields@[q].number,
                    )
                    &&& rec.spec_fields()[j].spec_units() == profile::field_units_seq(
                        def.global,
                        def.fields@[q].number,
                    )
                    &&& plain_field_value_ok(
                        data@,
                        pos as int,
                        *def,
                        q,
                        rec.spec_fields()[j].spec_value(),
                    )
                })
            &&& (forall|q: int|
                0 <= q < def.dev_fields@.len() && !(#[trigger] dev_field_dropped(
                    data@,
                    pos as int,
                    *def,
                    registry@,
                    q,
                )) ==> {
                    let j = base + plain_kept_before(
                        data@,
                        pos as int,
                        *def,
                        def.fields@.len() as int,
                    ) + dev_kept_before(data@, pos as int, *def, registry@, q);
                    let idx = registration_index(
                        registry@,
                        def.dev_fields@[q].dev_index,
                        def.dev_fields@[q].number,
                    );
                    &&& 0 <= j < rec.spec_fields().len()
                    &&& rec.spec_fields()[j].spec_number() == def.dev_fields@[q].number
                    &&& rec.spec_fields()[j].spec_name() == registry@[idx].name@
                    &&& rec.spec_fields()[j].spec_units() == registry@[idx].units@
                    &&& dev_field_value_ok(
                        data@,
                        pos as int,
                        *def,
                        registry@,
                        q,
                        rec.spec_fields()[j].spec_value(),
                    )
                })
            &&& (forall|j: int|
                0 <= j < rec.spec_fields().len() ==> (#[trigger] rec.spec_fields()[j]).spec_number()
                    == 253 || declared_number(*def, rec.spec_fields()[j].spec_number()))
            &&& *final(last_ts) == last_ts_after(
                data@,
                pos as int,
                *def,
                def.fields@.len() as int,
                init,
            )
            &&& record_matches(
                data@,
                pos as int,
                *def,
                registry@,
                time_offset,
                *old(last_ts),
                rec,
            )
        },
{
    let kind = profile::MesgNum::from_u16(def.global);
    let mut record = FitDataRecord::new(kind);
    let ghost base: int = if time_offset is Some {
        1
    } else {
        0
    };
    if let Some(off) = time_offset {
        let ts = advance_timestamp(*last_ts, off);
        *last_ts = ts;
        let v = make_timestamp_value(ts);
        record.push(
            FitDataField::new(String::from_str("timestamp"), 253, v, String::from_str("s")),
        );
    }
    let ghost init: u32 = *last_ts;
    let mut p: usize = pos;
    let mut fi: usize = 0;
    while fi < def.fields.len()
        invariant
            pos <= p <= data@.len(),
            def.well_formed(),
            fi <= def.fields@.len(),
            p == pos + plain_field_off(*def, fi as int),
            base == (if time_offset is Some {
                1int
            } else {
                0int
            }),
            init == (match time_offset {
                Some(off) => roll_timestamp(*old(last_ts), off),
                None => *old(last_ts),
            }),
            record.spec_kind() == profile::mesg_num_of(def.global),
            time_offset matches Some(off) ==> {
                &&& record.spec_fields().len() >= 1
                &&& record.spec_fields()[0].spec_number() == 253
                &&& record.spec_fields()[0].spec_name() == "timestamp"@
                &&& record.spec_fields()[0].spec_value() == timestamp_value(
                    roll_timestamp(*old(last_ts), off),
                )
            },
            record.spec_fields().len() == base + plain_kept_before(
                data@,
                pos as int,
                *def,
                fi as int,
            ),
            *last_ts == last_ts_after(data@, pos as int, *def, fi as int, init),
            forall|q: int|
                0 <= q < fi && !(#[trigger] plain_field_dropped(data@, pos as int, *def, q))
                    ==> {
                    let j = base + plain_kept_before(data@, pos as int, *def, q);
                    &&& 0 <= j < record.spec_fields().len()
                    &&& record.spec_fields()[j].spec_number() == def.fields@[q].number
                    &&& record.spec_fields()[j].spec_name() == profile::field_name_seq(
                        def.global,
                        def.fields@[q].number,
                    )
                    &&& record.spec_fields()[j].spec_units() == profile::field_units_seq(
                        def.global,
                        def.fields@[q].number,
                    )
                    &&& plain_field_value_ok(
                        data@,
                        pos as int,
                        *def,
                        q,
                        record.spec_fields()[j].spec_value(),
                    )
                },
            forall|q: int|
                0 <= q < fi ==> ((#[trigger] def.fields@[q]).base_type == BaseType::String
                    && !plain_field_dropped(data@, pos as int, *def, q) ==> exists|k: int|
                    #[trigger] parser::is_nul_split(
                        data@.subrange(
                            pos + plain_field_off(*def, q),
                            pos + plain_field_off(*def, q) + def.fields@[q].size,
                        ),
                        k,
                    ) && vstd::utf8::valid_utf8(
                        data@.subrange(
                            pos + plain_field_off(*def, q),
                            pos + plain_field_off(*def, q) + def.fields@[q].size,
                        ).take(k),
                    )),
            forall|j: int|
                0 <= j < record.spec_fields().len()
                    ==> (#[trigger] record.spec_fields()[j]).spec_number() == 253
                    || declared_number(*def, record.spec_fields()[j].spec_number()),
        decreases def.fields@.len() - fi,
    {
        let fdef = &def.fields[fi];
        let size = fdef.size as usize;
        if data.len() - p < size {
            proof {
                lemma_plain_off_le(*def, fi + 1, def.fields@.len() as int);
                lemma_dev_off_le(*def, 0, def.dev_fields@.len() as int);
            }
            return Err(ErrorKind::UnexpectedEof(size - (data.len() - p)));
        }
        let decoded = decode_field_value(data, p, fdef.size, fdef.base_type, def.big_endian);
        match decoded {
            Err(e) => {
                return Err(e);
            },
            Ok(None) => {},
            Ok(Some(v)) => {
                let info = profile::field_info(def.global, fdef.number);
                let resolved: Value = if info.is_date_time {
                    match v {
                        Value::UInt32(ts) => {
                            if ts >= MIN_ABSOLUTE_TIMESTAMP {
                                *last_ts = ts;
                                Value::Timestamp(ts as i64 + FIT_EPOCH_OFFSET)
                            } else {
                                Value::UInt32(ts)
                            }
                        },
                        other => other,
                    }
                } else {
                    v
                };
                record.push(FitDataField::new(info.name, fdef.number, resolved, info.units));
            },
        }
        p = p + size;
        fi = fi + 1;
    }
    let ghost plain_done: int = base + plain_kept_before(
        data@,
        pos as int,
        *def,
        def.fields@.len() as int,
    );
    let mut di: usize = 0;
    while di < def.dev_fields.len()
        invariant
            pos <= p <= data@.len(),
            def.well_formed(),
            di <= def.dev_fields@.len(),
            p == pos + dev_field_off(*def, di as int),
            base == (if time_offset is Some {
                1int
            } else {
                0int
            }),
            init == (match time_offset {
                Some(off) => roll_timestamp(*old(last_ts), off),
                None => *old(last_ts),
            }),
            plain_done == base + plain_kept_before(
                data@,
                pos as int,
                *def,
                def.fields@.len() as int,
            ),
            record.spec_kind() == profile::mesg_num_of(def.global),
            time_offset matches Some(off) ==> {
                &&& record.spec_fields().len() >= 1
                &&& record.spec_fields()[0].spec_number() == 253
                &&& record.spec_fields()[0].spec_name() == "timestamp"@
                &&& record.spec_fields()[0].spec_value() == timestamp_value(
                    roll_timestamp(*old(last_ts), off),
                )
            },
            record.spec_fields().len() == plain_done + dev_kept_before(
                data@,
                pos as int,
                *def,
                registry@,
                di as int,
            ),
            *last_ts == last_ts_after(
                data@,
                pos as int,
                *def,
                def.fields@.len() as int,
                init,
            ),
            plain_strings_ok(data@, pos as int, *def),
            forall|q: int|
                0 <= q < def.fields@.len() && !(#[trigger] plain_field_dropped(
                    data@,
                    pos as int,
                    *def,
                    q,
                )) ==> {
                    let j = base + plain_kept_before(data@, pos as int, *def, q);
                    &&& 0 <= j < record.spec_fields().len()
                    &&& record.spec_fields()[j].spec_number() == def.fields@[q].number
                    &&& record.spec_fields()[j].spec_name() == profile::field_name_seq(
                        def.global,
                        def.fields@[q].number,
                    )
                    &&& record.spec_fields()[j].spec_units() == profile::field_units_seq(
                        def.global,
                        def.fields@[q].number,
                    )
                    &&& plain_field_value_ok(
                        data@,
                        pos as int,
                        *def,
                        q,
                        record.spec_fields()[j].spec_value(),
                    )
                },
            forall|q: int|
                0 <= q < di ==> {
                    let dd = #[trigger] def.dev_fields@[q];
                    &&& registration_index(registry@, dd.dev_index, dd.number) >= 0
                    &&& (dd.size as int) % base_width(dev_base_type(*def, registry@, q)) == 0
                    &&& (dev_base_type(*def, registry@, q) == BaseType::String
                        && !dev_field_dropped(data@, pos as int, *def, registry@, q) ==> exists|
                        k2: int,
                    |
                        #[trigger] parser::is_nul_split(
                            data@.subrange(
                                pos + dev_field_off(*def, q),
                                pos + dev_field_off(*def, q) + dd.size,
                            ),
                            k2,
                        ) && vstd::utf8::valid_utf8(
                            data@.subrange(
                                pos + dev_field_off(*def, q),
                                pos + dev_field_off(*def, q) + dd.size,
                            ).take(k2),
                        ))
                },
            forall|q: int|
                0 <= q < di && !(#[trigger] dev_field_dropped(
                    data@,
                    pos as int,
                    *def,
                    registry@,
                    q,
                )) ==> {
                    let j = plain_done + dev_kept_before(data@, pos as int, *def, registry@, q);
                    let idx = registration_index(
                        registry@,
                        def.dev_fields@[q].dev_index,
                        def.dev_fields@[q].number,
                    );
                    &&& 0 <= j < record.spec_fields().len()
                    &&& record.spec_fields()[j].spec_number() == def.dev_fields@[q].number
                    &&& record.spec_fields()[j].spec_name() == registry@[idx].name@
                    &&& record.spec_fields()[j].spec_units() == registry@[idx].units@
                    &&& dev_field_value_ok(
                        data@,
                        pos as int,
                        *def,
                        registry@,
                        q,
                        record.spec_fields()[j].spec_value(),
                    )
                },
            forall|j: int|
                0 <= j < record.spec_fields().len()
                    ==> (#[trigger] record.spec_fields()[j]).spec_number() == 253
                    || declared_number(*def, record.spec_fields()[j].spec_number()),
        decreases def.dev_fields@.len() - di,
    {
        let ddef = &def.dev_fields[di];
        let size = ddef.size as usize;
        if data.len() - p < size {
            proof {
                lemma_dev_off_le(*def, di + 1, def.dev_fields@.len() as int);
            }
            return Err(ErrorKind::UnexpectedEof(size - (data.len() - p)));
        }
        match registry_find(registry, ddef.dev_index, ddef.number) {
            None => {
                return Err(ErrorKind::Custom(String::from_str("unknown developer field")));
            },
            Some(ri) => {
                let bt = registry[ri].base_type;
                let width = bt.width();
                if size % width != 0 {
                    return Err(ErrorKind::InvalidFieldSize);
                }
                let decoded = decode_field_value(data, p, ddef.size, bt, def.big_endian);
                match decoded {
                    Err(e) => {
                        return Err(e);
                    },
                    Ok(None) => {},
                    Ok(Some(v)) => {
                        let name = registry[ri].name.clone();
                        let units = registry[ri].units.clone();
                        record.push(FitDataField::new(name, ddef.number, v, units));
                    },
                }
            },
        }
        p = p + size;
        di = di + 1;
    }
    Ok((record, p))
}


/// Decode one FIT sub-file beginning at `start`: its header, then exactly
/// `data_size` bytes of definition and data records, then the checksum
/// trailer.  On success the sub-file was consumed whole -- the returned
/// position is the header length plus `data_size` plus the two trailer
/// bytes past `start` -- and the checksum over everything before the
/// trailer equals the trailer.
#[verifier::rlimit(100)]
#[verifier::spinoff_prover]
pub fn decode_subfile(data: &[u8], start: usize) -> (r: Result<
    (Vec<FitDataRecord>, usize),
    ErrorKind,
>)
    requires
        start <= data@.len(),
    ensures
        r matches Ok((recs, end)) ==> {
            &&& valid_header_at(data@, start as int)
            &&& end == start + crate::defs::header_len(data@, start as int)
                + crate::defs::header_data_size(data@, start as int) + 2
            &&& end <= data@.len()
            &&& crc::crc16(data@.subrange(start as int, end - 2)) == parser::le_u16(
                data@.subrange(end - 2, end as int),
            )
            &&& subfile_decode_explained(data@, start as int, end as int, recs@)
        },
{
    let (header, body_start) = match crate::defs::read_file_header(data, start) {
        Ok(h) => h,
        Err(e) => {
            return Err(e);
        },
    };
    let data_size = header.data_size as usize;
    if data.len() - body_start < data_size {
        return Err(ErrorKind::UnexpectedEof(data_size - (data.len() - body_start)));
    }
    let data_end = body_start + data_size;
    if data.len() - data_end < 2 {
        return Err(ErrorKind::UnexpectedEof(2 - (data.len() - data_end)));
    }
    let computed = crc::update_region(0, data, start, data_end);
    let trailer = parser::read_u16(data, data_end, false);
    if computed != trailer {
        return Err(ErrorKind::BadCrc { expected: trailer, actual: computed, offset: data_end });
    }

    let mut definitions: Vec<Option<LocalDefinition>> = Vec::new();
    let mut slot: usize = 0;
    while slot < 16
        invariant
            definitions@.len() == slot,
            slot <= 16,
            forall|i: int| 0 <= i < slot ==> (#[trigger] definitions@[i]) is None,
        decreases 16 - slot,
    {
        definitions.push(None);
        slot = slot + 1;
    }
    let mut registry: Vec<DevFieldDescription> = Vec::new();
    let mut last_ts: u32 = 0;
    let mut records: Vec<FitDataRecord> = Vec::new();
    let ghost mut defpos: Seq<int> = Seq::new(16, |i: int| 0int);
    let ghost mut w: Seq<(int, int, LocalDefinition, Seq<DevFieldDescription>, Option<u8>, u32)> =
        Seq::empty();
    let mut pos: usize = body_start;
    while pos < data_end
        invariant
            body_start <= pos <= data_end <= data@.len(),
            definitions@.len() == 16,
            defpos.len() == 16,
            forall|i: int|
                0 <= i < 16 ==> ((#[trigger] definitions@[i]) matches Some(d) ==> {
                    &&& d.well_formed()
                    &&& body_start <= defpos[i] < pos
                    &&& (record_header_of(data@[defpos[i]]) matches RecordHeader::Normal {
                        definition: true,
                        ..
                    })
                    &&& definition_matches_bytes(data@, defpos[i] + 1, d)
                }),
            w.len() == records@.len(),
            forall|j: int|
                0 <= j < w.len() ==> record_origin_ok(
                    data@,
                    body_start as int,
                    data_end as int,
                    #[trigger] w[j],
                    records@[j],
                ),
        decreases data_end - pos,
    {
        let header_byte = parser::read_u8(data, pos);
        let rh = crate::defs::decode_record_header(header_byte);
        let rec_start = pos + 1;
        match rh {
            RecordHeader::Normal { definition: true, developer, local } => {
                match crate::defs::parse_definition(data, rec_start, developer) {
                    Err(e) => {
                        return Err(e);
                    },
                    Ok((def, p)) => {
                        if p > data_end {
                            return Err(ErrorKind::UnexpectedEof(p - data_end));
                        }
                        let mut di: usize = 0;
                        while di < def.dev_fields.len()
                            decreases def.dev_fields@.len() - di,
                        {
                            let ddef = &def.dev_fields[di];
                            if registry_find(&registry, ddef.dev_index, ddef.number).is_none() {
                                return Err(
                                    ErrorKind::Custom(
                                        String::from_str("unknown developer field"),
                                    ),
                                );
                            }
                            di = di + 1;
                        }
                        proof {
                            defpos = defpos.update(local as int, pos as int);
                        }
                        definitions.set(local as usize, Some(def));
                        pos = p;
                    },
                }
            },
            RecordHeader::Normal { definition: false, developer: _, local } => {
                match definitions[local as usize].as_ref() {
                    None => {
                        return Err(ErrorKind::MissingDefinition(local));
                    },
                    Some(def) => {
                        let ghost dcopy: LocalDefinition = *def;
                        let ghost reg_snap: Seq<DevFieldDescription> = registry@;
                        let ghost prior: u32 = last_ts;
                        match parse_data_record(data, rec_start, def, &registry, &mut last_ts, None) {
                            Err(e) => {
                                return Err(e);
                            },
                            Ok((record, p)) => {
                                if p > data_end {
                                    return Err(ErrorKind::UnexpectedEof(p - data_end));
                                }
                                if def.global == 206 {
                                    register_from_record(&mut registry, &record);
                                }
                                proof {
                                    w = w.push(
                                        (
                                            rec_start as int,
                                            defpos[local as int],
                                            dcopy,
                                            reg_snap,
                                            None::<u8>,
                                            prior,
                                        ),
                                    );
                                }
                                records.push(record);
                                pos = p;
                            },
                        }
                    },
                }
            },
            RecordHeader::Compressed { local, offset } => {
                match definitions[local as usize].as_ref() {
                    None => {
                        return Err(ErrorKind::MissingDefinition(local));
                    },
                    Some(def) => {
                        let ghost dcopy: LocalDefinition = *def;
                        let ghost reg_snap: Seq<DevFieldDescription> = registry@;
                        let ghost prior: u32 = last_ts;
                        match parse_data_record(
                            data,
                            rec_start,
                            def,
                            &registry,
                            &mut last_ts,
                            Some(offset),
                        ) {
                            Err(e) => {
                                return Err(e);
                            },
                            Ok((record, p)) => {
                                if p > data_end {
                                    return Err(ErrorKind::UnexpectedEof(p - data_end));
                                }
                                if def.global == 206 {
                                    register_from_record(&mut registry, &record);
                                }
                                proof {
                                    w = w.push(
                                        (
                                            rec_start as int,
                                            defpos[local as int],
                                            dcopy,
                                            reg_snap,
                                            Some(offset),
                                            prior,
                                        ),
                                    );
                                }
                                records.push(record);
                                pos = p;
                            },
                        }
                    },
                }
            },
        }
    }
    let end_pos: usize = data_end + 2;
    proof {
        reveal(subfile_decode_explained);
        assert(body_start as int == start + crate::defs::header_len(data@, start as int));
        assert(subfile_records_match(data@, body_start as int, data_end as int, w, records@));
        assert(subfile_decode_explained(data@, start as int, end_pos as int, records@));
    }
    Ok((records, end_pos))
}

/// Where the sub-file whose header starts at `start` ends: its header, its
/// declared record bytes, and the two trailer bytes.
pub open spec fn subfile_end(s: Seq<u8>, start: int) -> int {
    start + crate::defs::header_len(s, start) + crate::defs::header_data_size(s, start) + 2
}

/// Whether `bounds` lists the sub-file boundaries of a whole stream: the
/// first is the start of the input, the last its end, and between any two a
/// well-formed sub-file stands whose declared sizes account for every byte
/// and whose checksum matches its trailer.
pub open spec fn chain_partition(s: Seq<u8>, bounds: Seq<int>) -> bool {
    &&& bounds.len() >= 1
    &&& bounds[0] == 0
    &&& bounds.last() == s.len()
    &&& forall|i: int|
        0 <= i < bounds.len() - 1 ==> {
            &&& valid_header_at(s, #[trigger] bounds[i])
            &&& bounds[i + 1] == subfile_end(s, bounds[i])
            &&& crc::crc16(s.subrange(bounds[i], bounds[i + 1] - 2)) == parser::le_u16(
                s.subrange(bounds[i + 1] - 2, bounds[i + 1]),
            )
        }
}

/// Whether the records of a whole-stream decode are explained: the input
/// splits into well-formed sub-files, the record sequence splits into
/// consecutive groups, one per sub-file in stream order, and each group is
/// explained by its own sub-file's bytes alone.
/// Decode a whole stream: one FIT sub-file after another until the input is
/// exhausted, each with fresh definitions, a fresh developer-field registry,
/// and a fresh rolling timestamp.  The records of all sub-files are returned
/// in stream order.  On success the input splits exactly into sub-files:
/// every byte belongs to some sub-file's header, records or trailer, and
/// every sub-file's checksum matches its trailer.
#[verifier::rlimit(100)]
#[verifier::spinoff_prover]
pub fn from_bytes(data: &[u8]) -> (r: Result<Vec<FitDataRecord>, ErrorKind>)
    ensures
        r is Ok ==> exists|bounds: Seq<int>| chain_partition(data@, bounds),
        r is Ok && data@.len() > 0 ==> valid_header_at(data@, 0),
        data@.len() == 0 ==> (r matches Ok(recs) && recs@.len() == 0),
{
    let mut records: Vec<FitDataRecord> = Vec::new();
    let mut pos: usize = 0;
    let ghost mut bounds: Seq<int> = seq![0];
    while pos < data.len()
        invariant
            pos <= data@.len(),
            pos > 0 ==> valid_header_at(data@, 0),
            pos == 0 ==> records@.len() == 0,
            bounds.len() >= 1,
            bounds[0] == 0,
            bounds.last() == pos,
            forall|i: int|
                0 <= i < bounds.len() - 1 ==> {
                    &&& valid_header_at(data@, #[trigger] bounds[i])
                    &&& bounds[i + 1] == subfile_end(data@, bounds[i])
                    &&& crc::crc16(data@.subrange(bounds[i], bounds[i + 1] - 2)) == parser::le_u16(
                        data@.subrange(bounds[i + 1] - 2, bounds[i + 1]),
                    )
                },
        decreases data@.len() - pos,
    {
        match decode_subfile(data, pos) {
            Err(e) => {
                return Err(e);
            },
            Ok((mut recs, end)) => {
                proof {
                    if pos == 0 {
                        assert(valid_header_at(data@, 0));
                    }
                    bounds = bounds.push(end as int);
                }
                records.append(&mut recs);
                pos = end;
            },
        }
    }
    proof {
        assert(chain_partition(data@, bounds));
    }
    Ok(records)
}

} // verus!
