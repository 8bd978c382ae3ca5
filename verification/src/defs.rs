//! The framing structures of a FIT stream: the file header, the one-byte
//! record header, the base-type catalog, and message definitions.
use vstd::prelude::*;
use vstd::string::StringExecFns;

use crate::crc;
use crate::error::ErrorKind;
use crate::parser;

verus! {

/// The 12- or 14-byte header that opens every FIT sub-file.
pub struct FileHeader {
    /// Header length in bytes: 12, or 14 when a header checksum is present.
    pub length: u8,
    /// Protocol version byte.
    pub protocol_version: u8,
    /// Profile version, little-endian.
    pub profile_version: u16,
    /// Byte count of the records that follow the header, excluding the
    /// two-byte checksum trailer.
    pub data_size: u32,
    /// The header checksum; zero when absent or recorded as zero.
    pub crc: u16,
}

/// The declared length of the header at `pos`.
pub open spec fn header_len(s: Seq<u8>, pos: int) -> int {
    s[pos] as int
}

/// The declared record-byte count of the header at `pos`.
pub open spec fn header_data_size(s: Seq<u8>, pos: int) -> int {
    parser::le_u32(s.subrange(pos + 4, pos + 8)) as int
}

/// Whether the four magic bytes at `pos + 8` spell `.FIT`.
pub open spec fn magic_ok(s: Seq<u8>, pos: int) -> bool {
    &&& s[pos + 8] == 0x2E
    &&& s[pos + 9] == 0x46
    &&& s[pos + 10] == 0x49
    &&& s[pos + 11] == 0x54
}

/// Whether a well-formed file header starts at `pos`: the length byte is
/// present and is 12 or 14, the whole header is present, the magic matches,
/// and a nonzero header checksum matches the checksum of the first 12 bytes.
pub open spec fn valid_header_at(s: Seq<u8>, pos: int) -> bool {
    &&& pos + 1 <= s.len()
    &&& (s[pos] == 12 || s[pos] == 14)
    &&& pos + header_len(s, pos) <= s.len()
    &&& magic_ok(s, pos)
    &&& (s[pos] == 14 ==> {
        let c = parser::le_u16(s.subrange(pos + 12, pos + 14));
        c == 0 || c == crc::crc16(s.subrange(pos, pos + 12))
    })
}

/// Parse the file header at `pos`.  Succeeds exactly on a well-formed header,
/// and then returns its fields and the position just past it.
pub fn read_file_header(data: &[u8], pos: usize) -> (r: Result<(FileHeader, usize), ErrorKind>)
    requires
        pos <= data@.len(),
    ensures
        r is Ok <==> valid_header_at(data@, pos as int),
        r matches Ok((h, p)) ==> {
            &&& h.length == data@[pos as int]
            &&& h.protocol_version == data@[pos + 1]
            &&& h.profile_version == parser::le_u16(data@.subrange(pos + 2, pos + 4))
            &&& h.data_size == header_data_size(data@, pos as int)
            &&& (h.length == 14 ==> h.crc == parser::le_u16(data@.subrange(pos + 12, pos + 14)))
            &&& (h.length == 12 ==> h.crc == 0)
            &&& p == pos + h.length
            &&& p <= data@.len()
        },
{
    if data.len() - pos < 1 {
        return Err(ErrorKind::UnexpectedEof(1));
    }
    let length = parser::read_u8(data, pos);
    if length != 12 && length != 14 {
        return Err(ErrorKind::ParseError(pos, String::from_str("header length must be 12 or 14")));
    }
    if data.len() - pos < length as usize {
        return Err(ErrorKind::UnexpectedEof(length as usize - (data.len() - pos)));
    }
    let m0 = parser::read_u8(data, pos + 8);
    let m1 = parser::read_u8(data, pos + 9);
    let m2 = parser::read_u8(data, pos + 10);
    let m3 = parser::read_u8(data, pos + 11);
    if m0 != 0x2E || m1 != 0x46 || m2 != 0x49 || m3 != 0x54 {
        return Err(ErrorKind::BadMagic);
    }
    let protocol_version = parser::read_u8(data, pos + 1);
    let profile_version = parser::read_u16(data, pos + 2, false);
    let data_size = parser::read_u32(data, pos + 4, false);
    let mut crc_value: u16 = 0;
    if length == 14 {
        crc_value = parser::read_u16(data, pos + 12, false);
        if crc_value != 0 {
            let computed = crc::update_region(0, data, pos, pos + 12);
            if computed != crc_value {
                return Err(
                    ErrorKind::BadCrc { expected: crc_value, actual: computed, offset: pos + 12 },
                );
            }
        }
    }
    Ok(
        (
            FileHeader { length, protocol_version, profile_version, data_size, crc: crc_value },
            pos + length as usize,
        ),
    )
}

/// The first byte of every record, classified.
#[derive(Debug, Clone, Copy, PartialEq, Eq, Structural)]
pub enum RecordHeader {
    /// A normal header: bit 7 clear.  Bit 6 marks a definition record, bit 5
    /// the presence of developer-field declarations, bits 3-0 the local
    /// message type.
    Normal {
        /// Whether this record is a message definition.
        definition: bool,
        /// Whether a definition carries developer-field declarations.
        developer: bool,
        /// The local message type, 0-15.
        local: u8,
    },
    /// A compressed-timestamp header: bit 7 set.  Bits 6-5 are the local
    /// message type, bits 4-0 a five-bit time offset.
    Compressed {
        /// The local message type, 0-3.
        local: u8,
        /// The five-bit time offset.
        offset: u8,
    },
}

/// How one record-header byte is classified.
pub open spec fn record_header_of(b: u8) -> RecordHeader {
    if b & 0x80 != 0 {
        RecordHeader::Compressed { local: (b >> 5) & 0x3, offset: b & 0x1F }
    } else {
        RecordHeader::Normal {
            definition: b & 0x40 != 0,
            developer: b & 0x20 != 0,
            local: b & 0xF,
        }
    }
}

/// Classify one record-header byte.
pub fn decode_record_header(b: u8) -> (r: RecordHeader)
    ensures
        r == record_header_of(b),
        r matches RecordHeader::Normal { local, .. } ==> local < 16,
        r matches RecordHeader::Compressed { local, offset } ==> local < 4 && offset < 32,
{
    proof {
        assert((b >> 5) & 0x3 < 4 && (b & 0x1F) < 32 && (b & 0xF) < 16) by (bit_vector);
    }
    if b & 0x80 != 0 {
        RecordHeader::Compressed { local: (b >> 5) & 0x3, offset: b & 0x1F }
    } else {
        RecordHeader::Normal {
            definition: b & 0x40 != 0,
            developer: b & 0x20 != 0,
            local: b & 0xF,
        }
    }
}

/// The FIT base types.  The `z` types differ from their plain counterparts
/// only in their invalid sentinel: zero rather than all-ones.
#[derive(Debug, Clone, Copy, PartialEq, Eq, Structural)]
pub enum BaseType {
    /// Tag 0: an enumeration byte.
    Enum,
    /// Tag 1: a signed byte.
    SInt8,
    /// Tag 2: an unsigned byte.
    UInt8,
    /// Tag 3: a signed 16-bit integer.
    SInt16,
    /// Tag 4: an unsigned 16-bit integer.
    UInt16,
    /// Tag 5: a signed 32-bit integer.
    SInt32,
    /// Tag 6: an unsigned 32-bit integer.
    UInt32,
    /// Tag 7: a NUL-terminated UTF-8 string.
    String,
    /// Tag 8: a 32-bit IEEE 754 number, carried as bits.
    Float32,
    /// Tag 9: a 64-bit IEEE 754 number, carried as bits.
    Float64,
    /// Tag 10: an unsigned byte with invalid sentinel zero.
    UInt8z,
    /// Tag 11: an unsigned 16-bit integer with invalid sentinel zero.
    UInt16z,
    /// Tag 12: an unsigned 32-bit integer with invalid sentinel zero.
    UInt32z,
    /// Tag 13: opaque byte data.
    Byte,
    /// Tag 14: a signed 64-bit integer.
    SInt64,
    /// Tag 15: an unsigned 64-bit integer.
    UInt64,
    /// Tag 16: an unsigned 64-bit integer with invalid sentinel zero.
    UInt64z,
}

/// The base type a base-type byte names: its low five bits are the tag, bit 7
/// flags multi-byte width.  Tags outside the catalog yield nothing.
pub open spec fn base_type_of(b: u8) -> Option<BaseType> {
    let tag = b & 0x1F;
    if tag == 0 {
        Some(BaseType::Enum)
    } else if tag == 1 {
        Some(BaseType::SInt8)
    } else if tag == 2 {
        Some(BaseType::UInt8)
    } else if tag == 3 {
        Some(BaseType::SInt16)
    } else if tag == 4 {
        Some(BaseType::UInt16)
    } else if tag == 5 {
        Some(BaseType::SInt32)
    } else if tag == 6 {
        Some(BaseType::UInt32)
    } else if tag == 7 {
        Some(BaseType::String)
    } else if tag == 8 {
        Some(BaseType::Float32)
    } else if tag == 9 {
        Some(BaseType::Float64)
    } else if tag == 10 {
        Some(BaseType::UInt8z)
    } else if tag == 11 {
        Some(BaseType::UInt16z)
    } else if tag == 12 {
        Some(BaseType::UInt32z)
    } else if tag == 13 {
        Some(BaseType::Byte)
    } else if tag == 14 {
        Some(BaseType::SInt64)
    } else if tag == 15 {
        Some(BaseType::UInt64)
    } else if tag == 16 {
        Some(BaseType::UInt64z)
    } else {
        None
    }
}

/// The byte width of one element of a base type.
pub open spec fn base_width(bt: BaseType) -> int {
    match bt {
        BaseType::Enum => 1,
        BaseType::SInt8 => 1,
        BaseType::UInt8 => 1,
        BaseType::String => 1,
        BaseType::UInt8z => 1,
        BaseType::Byte => 1,
        BaseType::SInt16 => 2,
        BaseType::UInt16 => 2,
        BaseType::UInt16z => 2,
        BaseType::SInt32 => 4,
        BaseType::UInt32 => 4,
        BaseType::Float32 => 4,
        BaseType::UInt32z => 4,
        BaseType::SInt64 => 8,
        BaseType::UInt64 => 8,
        BaseType::Float64 => 8,
        BaseType::UInt64z => 8,
    }
}

/// Whether the invalid sentinel of a base type is zero rather than all-ones.
pub open spec fn is_zero_invalid(bt: BaseType) -> bool {
    match bt {
        BaseType::UInt8z => true,
        BaseType::UInt16z => true,
        BaseType::UInt32z => true,
        BaseType::UInt64z => true,
        BaseType::String => true,
        _ => false,
    }
}

/// The byte every byte of an invalid field equals: zero for the `z` types and
/// strings, all-ones otherwise.
pub open spec fn invalid_byte(bt: BaseType) -> u8 {
    if is_zero_invalid(bt) {
        0
    } else {
        0xFF
    }
}

impl BaseType {
    /// Resolve a base-type byte against the catalog.
    pub fn from_u8(b: u8) -> (r: Option<BaseType>)
        ensures
            r == base_type_of(b),
    {
        let tag = b & 0x1F;
        match tag {
            0 => Some(BaseType::Enum),
            1 => Some(BaseType::SInt8),
            2 => Some(BaseType::UInt8),
            3 => Some(BaseType::SInt16),
            4 => Some(BaseType::UInt16),
            5 => Some(BaseType::SInt32),
            6 => Some(BaseType::UInt32),
            7 => Some(BaseType::String),
            8 => Some(BaseType::Float32),
            9 => Some(BaseType::Float64),
            10 => Some(BaseType::UInt8z),
            11 => Some(BaseType::UInt16z),
            12 => Some(BaseType::UInt32z),
            13 => Some(BaseType::Byte),
            14 => Some(BaseType::SInt64),
            15 => Some(BaseType::UInt64),
            16 => Some(BaseType::UInt64z),
            _ => None,
        }
    }

    /// The byte width of one element of this base type.
    pub fn width(&self) -> (r: usize)
        ensures
            r == base_width(*self),
            1 <= r <= 8,
    {
        match self {
            BaseType::Enum => 1,
            BaseType::SInt8 => 1,
            BaseType::UInt8 => 1,
            BaseType::String => 1,
            BaseType::UInt8z => 1,
            BaseType::Byte => 1,
            BaseType::SInt16 => 2,
            BaseType::UInt16 => 2,
            BaseType::UInt16z => 2,
            BaseType::SInt32 => 4,
            BaseType::UInt32 => 4,
            BaseType::Float32 => 4,
            BaseType::UInt32z => 4,
            BaseType::SInt64 => 8,
            BaseType::UInt64 => 8,
            BaseType::Float64 => 8,
            BaseType::UInt64z => 8,
        }
    }
}

/// One field of a message definition.
pub struct FieldDefinition {
    /// The field definition number within the message.
    pub number: u8,
    /// The field's size in bytes, a multiple of the base type's width.
    pub size: u8,
    /// The field's base type.
    pub base_type: BaseType,
}

impl FieldDefinition {
    /// A field definition is well formed when its size is a positive-width
    /// multiple of its base type's width.
    pub open spec fn well_formed(&self) -> bool {
        self.size as int % base_width(self.base_type) == 0
    }
}

/// One developer-field declaration of a message definition; its type and
/// names come from an earlier `field_description` message.
pub struct DeveloperFieldDefinition {
    /// The developer field's number.
    pub number: u8,
    /// The declared size in bytes.
    pub size: u8,
    /// The developer data index the field was registered under.
    pub dev_index: u8,
}

/// A live message definition for one local message type.
pub struct LocalDefinition {
    /// The global message number data records decode against.
    pub global: u16,
    /// Whether multi-byte payload fields are big-endian.
    pub big_endian: bool,
    /// The declared fields, in declaration order.
    pub fields: Vec<FieldDefinition>,
    /// The declared developer fields, in declaration order.
    pub dev_fields: Vec<DeveloperFieldDefinition>,
}

impl LocalDefinition {
    /// A definition is well formed when each of its fields is.
    pub open spec fn well_formed(&self) -> bool {
        forall|i: int| 0 <= i < self.fields@.len() ==> (#[trigger] self.fields@[i]).well_formed()
    }
}

/// The declared field count of the definition record body at `pos`.
pub open spec fn definition_field_count(s: Seq<u8>, pos: int) -> int {
    s[pos + 4] as int
}

/// The size byte of the `i`-th declared field of the definition at `pos`.
pub open spec fn field_size_byte(s: Seq<u8>, pos: int, i: int) -> u8 {
    s[pos + 5 + 3 * i + 1]
}

/// The base-type byte of the `i`-th declared field of the definition at `pos`.
pub open spec fn field_type_byte(s: Seq<u8>, pos: int, i: int) -> u8 {
    s[pos + 5 + 3 * i + 2]
}

/// The byte length of the definition record body at `pos`: the fixed five
/// bytes, the field triples, and, with developer declarations, their count
/// byte and triples.
pub open spec fn definition_len(s: Seq<u8>, pos: int, developer: bool) -> int {
    let fc = definition_field_count(s, pos);
    if developer {
        5 + 3 * fc + 1 + 3 * (s[pos + 5 + 3 * fc] as int)
    } else {
        5 + 3 * fc
    }
}

/// Whether the whole definition record body at `pos` lies within the input:
/// the fixed bytes, every declared triple, and, when announced, the
/// developer count byte and its triples.
pub open spec fn definition_fits(s: Seq<u8>, pos: int, developer: bool) -> bool {
    &&& pos + 5 <= s.len()
    &&& pos + 5 + 3 * definition_field_count(s, pos) + (if developer {
        1int
    } else {
        0int
    }) <= s.len()
    &&& (developer ==> pos + definition_len(s, pos, developer) <= s.len())
}

/// Whether every declared field of the definition at `pos` names a base type
/// of the catalog and a size that is a multiple of its width.
pub open spec fn definition_fields_ok(s: Seq<u8>, pos: int) -> bool {
    forall|i: int|
        0 <= i < definition_field_count(s, pos) ==> {
            &&& base_type_of(#[trigger] field_type_byte(s, pos, i)) is Some
            &&& (field_size_byte(s, pos, i) as int) % base_width(
                base_type_of(field_type_byte(s, pos, i)).unwrap(),
            ) == 0
        }
}

/// Parse the body of a message-definition record at `pos`: the reserved and
/// architecture bytes, the global message number, the declared fields, and,
/// when the record header announced them, the developer-field declarations.
/// Returns the definition and the position just past it.
pub fn parse_definition(data: &[u8], pos: usize, developer: bool) -> (r: Result<
    (LocalDefinition, usize),
    ErrorKind,
>)
    requires
        pos <= data@.len(),
    ensures
        r is Ok <==> definition_fits(data@, pos as int, developer) && definition_fields_ok(
            data@,
            pos as int,
        ),
        r matches Err(e) ==> match e {
            ErrorKind::UnexpectedEof(_) => !definition_fits(data@, pos as int, developer),
            ErrorKind::UnknownBaseType(b) => exists|i: int|
                0 <= i < definition_field_count(data@, pos as int) && #[trigger] field_type_byte(
                    data@,
                    pos as int,
                    i,
                ) == b && base_type_of(b) is None,
            ErrorKind::InvalidFieldSize => exists|i: int|
                0 <= i < definition_field_count(data@, pos as int) && base_type_of(
                    #[trigger] field_type_byte(data@, pos as int, i),
                ) is Some && (field_size_byte(data@, pos as int, i) as int) % base_width(
                    base_type_of(field_type_byte(data@, pos as int, i)).unwrap(),
                ) != 0,
            _ => false,
        },
        r matches Ok((def, p)) ==> {
            &&& def.well_formed()
            &&& pos + 5 <= p <= data@.len()
            &&& def.big_endian == (data@[pos + 1] != 0)
            &&& def.global == parser::scalar_u16(
                data@.subrange(pos + 2, pos + 4),
                data@[pos + 1] != 0,
            )
            &&& def.fields@.len() == data@[pos + 4]
            &&& (forall|i: int|
                0 <= i < def.fields@.len() ==> {
                    &&& (#[trigger] def.fields@[i]).number == data@[pos + 5 + 3 * i]
                    &&& def.fields@[i].size == data@[pos + 5 + 3 * i + 1]
                    &&& Some(def.fields@[i].base_type) == base_type_of(data@[pos + 5 + 3 * i + 2])
                })
            &&& (forall|k: int|
                0 <= k < def.dev_fields@.len() ==> {
                    let base = pos + 5 + 3 * def.fields@.len() + 1;
                    &&& (#[trigger] def.dev_fields@[k]).number == data@[base + 3 * k]
                    &&& def.dev_fields@[k].size == data@[base + 3 * k + 1]
                    &&& def.dev_fields@[k].dev_index == data@[base + 3 * k + 2]
                })
            &&& p == pos + 5 + 3 * def.fields@.len() + (if developer {
                1 + 3 * def.dev_fields@.len()
            } else {
                0
            })
            &&& p == pos + definition_len(data@, pos as int, developer)
            &&& (developer ==> def.dev_fields@.len() == data@[pos + 5 + 3 * def.fields@.len()])
            &&& (!developer ==> def.dev_fields@.len() == 0)
        },
{
    if data.len() - pos < 5 {
        return Err(ErrorKind::UnexpectedEof(5 - (data.len() - pos)));
    }
    let arch = parser::read_u8(data, pos + 1);
    let big_endian = arch != 0;
    let global = parser::read_u16(data, pos + 2, big_endian);
    let field_count = parser::read_u8(data, pos + 4);
    let mut fields: Vec<FieldDefinition> = Vec::new();
    let mut p: usize = pos + 5;
    let mut i: usize = 0;
    while i < field_count as usize
        invariant
            i <= field_count,
            p == pos + 5 + 3 * i,
            p <= data@.len(),
            pos + 5 <= data@.len(),
            field_count == data@[pos + 4],
            fields@.len() == i,
            forall|j: int| 0 <= j < i ==> (#[trigger] fields@[j]).well_formed(),
            forall|j: int|
                0 <= j < i ==> {
                    &&& (#[trigger] fields@[j]).number == data@[pos + 5 + 3 * j]
                    &&& fields@[j].size == data@[pos + 5 + 3 * j + 1]
                    &&& Some(fields@[j].base_type) == base_type_of(data@[pos + 5 + 3 * j + 2])
                },
            forall|j: int|
                0 <= j < i ==> {
                    &&& base_type_of(#[trigger] field_type_byte(data@, pos as int, j)) is Some
                    &&& (field_size_byte(data@, pos as int, j) as int) % base_width(
                        base_type_of(field_type_byte(data@, pos as int, j)).unwrap(),
                    ) == 0
                },
        decreases field_count - i,
    {
        if data.len() < 3 || p > data.len() - 3 {
            return Err(ErrorKind::UnexpectedEof(3));
        }
        let number = parser::read_u8(data, p);
        let size = parser::read_u8(data, p + 1);
        let type_byte = parser::read_u8(data, p + 2);
        let base_type = match BaseType::from_u8(type_byte) {
            Some(bt) => bt,
            None => {
                proof {
                    assert(field_type_byte(data@, pos as int, i as int) == type_byte);
                    assert(base_type_of(field_type_byte(data@, pos as int, i as int)) is None);
                }
                return Err(ErrorKind::UnknownBaseType(type_byte));
            },
        };
        let width = base_type.width();
        if size as usize % width != 0 {
            proof {
                assert(field_type_byte(data@, pos as int, i as int) == type_byte);
                assert(field_size_byte(data@, pos as int, i as int) == size);
                assert(base_type_of(field_type_byte(data@, pos as int, i as int)) == Some(
                    base_type,
                ));
            }
            return Err(ErrorKind::InvalidFieldSize);
        }
        fields.push(FieldDefinition { number, size, base_type });
        p = p + 3;
        i = i + 1;
    }
    let mut dev_fields: Vec<DeveloperFieldDefinition> = Vec::new();
    if developer {
        if p >= data.len() {
            return Err(ErrorKind::UnexpectedEof(1));
        }
        let dev_count = parser::read_u8(data, p);
        p = p + 1;
        let mut k: usize = 0;
        while k < dev_count as usize
            invariant
                k <= dev_count,
                developer,
                p == pos + 5 + 3 * fields@.len() + 1 + 3 * k,
                p <= data@.len(),
                pos + 5 <= data@.len(),
                fields@.len() == data@[pos + 4],
                dev_count == data@[pos + 5 + 3 * fields@.len()],
                dev_fields@.len() == k,
                forall|j: int|
                    0 <= j < k ==> {
                        let base = pos + 5 + 3 * fields@.len() + 1;
                        &&& (#[trigger] dev_fields@[j]).number == data@[base + 3 * j]
                        &&& dev_fields@[j].size == data@[base + 3 * j + 1]
                        &&& dev_fields@[j].dev_index == data@[base + 3 * j + 2]
                    },
            decreases dev_count - k,
        {
            if data.len() < 3 || p > data.len() - 3 {
                return Err(ErrorKind::UnexpectedEof(3));
            }
            let number = parser::read_u8(data, p);
            let size = parser::read_u8(data, p + 1);
            let dev_index = parser::read_u8(data, p + 2);
            dev_fields.push(DeveloperFieldDefinition { number, size, dev_index });
            p = p + 3;
            k = k + 1;
        }
    }
    Ok((LocalDefinition { global, big_endian, fields, dev_fields }, p))
}

} // verus!
