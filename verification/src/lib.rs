//! A decoder for the ANT/Garmin FIT binary format.
//!
//! A FIT file is a compact, schema-driven binary log: a small header, a body of
//! message-definition and data records, and a 16-bit checksum trailer.  One
//! stream may chain several independently framed FIT files.  Decoding turns the
//! stream into a flat sequence of [`FitDataRecord`]s whose fields carry typed
//! [`Value`]s together with the names and units the FIT profile gives them.
use vstd::prelude::*;
use vstd::string::StringExecFns;

pub mod crc;
pub mod de;
pub mod defs;
pub mod error;
pub mod parser;
pub mod profile;

pub use de::from_bytes;
pub use error::ErrorKind;

verus! {

/// One decoded datum.  The variants are the FIT base types; the `z`-suffixed
/// ones differ only in their invalid sentinel (zero rather than all-ones).
#[derive(Debug)]
pub enum Value {
    /// An absolute timestamp, as POSIX seconds.
    Timestamp(i64),
    /// Opaque byte data.
    Byte(u8),
    /// An enumeration value the profile gave no name for.
    Enum(u8),
    /// Signed 8-bit integer data.
    SInt8(i8),
    /// Unsigned 8-bit integer data.
    UInt8(u8),
    /// Signed 16-bit integer data.
    SInt16(i16),
    /// Unsigned 16-bit integer data.
    UInt16(u16),
    /// Signed 32-bit integer data.
    SInt32(i32),
    /// Unsigned 32-bit integer data.
    UInt32(u32),
    /// UTF-8 string data, taken up to the first NUL byte.
    String(String),
    /// A 32-bit IEEE 754 number, carried as its bit pattern: decoding moves
    /// the bits unchanged, and no arithmetic is done on them here.
    Float32(u32),
    /// A 64-bit IEEE 754 number, carried as its bit pattern.
    Float64(u64),
    /// Unsigned 8-bit integer whose invalid sentinel is 0 instead of 0xFF.
    UInt8z(u8),
    /// Unsigned 16-bit integer whose invalid sentinel is 0 instead of 0xFFFF.
    UInt16z(u16),
    /// Unsigned 32-bit integer whose invalid sentinel is 0 instead of all-ones.
    UInt32z(u32),
    /// Signed 64-bit integer data.
    SInt64(i64),
    /// Unsigned 64-bit integer data.
    UInt64(u64),
    /// Unsigned 64-bit integer whose invalid sentinel is 0 instead of all-ones.
    UInt64z(u64),
    /// A field whose declared size spans several elements of its base type.
    Array(Vec<Value>),
}

impl Value {
    /// Whether this value coerces to a signed 64-bit integer: every variant
    /// but the floating-point bit patterns, strings and arrays does.
    pub open spec fn is_i64_coercible(&self) -> bool {
        match self {
            Value::Float32(_) => false,
            Value::Float64(_) => false,
            Value::String(_) => false,
            Value::Array(_) => false,
            _ => true,
        }
    }

    /// The signed 64-bit integer a coercible value stands for.  A timestamp
    /// coerces to its POSIX seconds; an unsigned 64-bit value keeps its
    /// two's-complement bit pattern, as a plain cast would.
    pub open spec fn as_i64_spec(&self) -> int {
        match self {
            Value::Timestamp(v) => *v as int,
            Value::Byte(v) => *v as int,
            Value::Enum(v) => *v as int,
            Value::SInt8(v) => *v as int,
            Value::UInt8(v) => *v as int,
            Value::SInt16(v) => *v as int,
            Value::UInt16(v) => *v as int,
            Value::SInt32(v) => *v as int,
            Value::UInt32(v) => *v as int,
            Value::UInt8z(v) => *v as int,
            Value::UInt16z(v) => *v as int,
            Value::UInt32z(v) => *v as int,
            Value::SInt64(v) => *v as int,
            Value::UInt64(v) => parser::i64_of(*v) as int,
            Value::UInt64z(v) => parser::i64_of(*v) as int,
            _ => 0,
        }
    }

    /// Coerce to a signed 64-bit integer.  Succeeds on exactly the numeric and
    /// timestamp variants, and returns the value `as_i64_spec` describes.
    pub fn to_i64(&self) -> (r: Result<i64, ErrorKind>)
        ensures
            self.is_i64_coercible() <==> r is Ok,
            r is Ok ==> r.unwrap() == self.as_i64_spec(),
            r matches Err(e) ==> e is ValueError,
    {
        match self {
            Value::Timestamp(v) => Ok(*v),
            Value::Byte(v) => Ok(*v as i64),
            Value::Enum(v) => Ok(*v as i64),
            Value::SInt8(v) => Ok(*v as i64),
            Value::UInt8(v) => Ok(*v as i64),
            Value::SInt16(v) => Ok(*v as i64),
            Value::UInt16(v) => Ok(*v as i64),
            Value::SInt32(v) => Ok(*v as i64),
            Value::UInt32(v) => Ok(*v as i64),
            Value::UInt8z(v) => Ok(*v as i64),
            Value::UInt16z(v) => Ok(*v as i64),
            Value::UInt32z(v) => Ok(*v as i64),
            Value::SInt64(v) => Ok(*v),
            Value::UInt64(v) => Ok(parser::u64_to_i64_bits(*v)),
            Value::UInt64z(v) => Ok(parser::u64_to_i64_bits(*v)),
            Value::Float32(_) => Err(ErrorKind::ValueError(
                String::from_str("cannot coerce a float to an i64"),
            )),
            Value::Float64(_) => Err(ErrorKind::ValueError(
                String::from_str("cannot coerce a float to an i64"),
            )),
            Value::String(_) => Err(ErrorKind::ValueError(
                String::from_str("cannot coerce a string to an i64"),
            )),
            Value::Array(_) => Err(ErrorKind::ValueError(
                String::from_str("cannot coerce an array to an i64"),
            )),
        }
    }
}

/// One profile-resolved field of a data record: its name, its field definition
/// number, its decoded value, and its units.
#[derive(Debug)]
pub struct FitDataField {
    name: String,
    number: u8,
    value: Value,
    units: String,
}

impl FitDataField {
    /// The stored name.
    pub closed spec fn spec_name(&self) -> Seq<char> {
        self.name@
    }

    /// The stored field definition number.
    pub closed spec fn spec_number(&self) -> u8 {
        self.number
    }

    /// The stored value.
    pub closed spec fn spec_value(&self) -> Value {
        self.value
    }

    /// The stored units.
    pub closed spec fn spec_units(&self) -> Seq<char> {
        self.units@
    }

    /// Create a new field.
    pub fn new(name: String, number: u8, value: Value, units: String) -> (r: FitDataField)
        ensures
            r.spec_name() == name@,
            r.spec_number() == number,
            r.spec_value() == value,
            r.spec_units() == units@,
    {
        FitDataField { name, number, value, units }
    }

    /// Return the stored name.
    pub fn name(&self) -> (r: &str)
        ensures
            r@ == self.spec_name(),
    {
        self.name.as_str()
    }

    /// Return the stored field definition number.
    pub fn number(&self) -> (r: u8)
        ensures
            r == self.spec_number(),
    {
        self.number
    }

    /// Return the stored value.
    pub fn value(&self) -> (r: &Value)
        ensures
            *r == self.spec_value(),
    {
        &self.value
    }

    /// Return the units associated with the value.
    pub fn units(&self) -> (r: &str)
        ensures
            r@ == self.spec_units(),
    {
        self.units.as_str()
    }
}

/// A set of data derived from one FIT data message: the message kind the
/// profile resolves its global number to, and its fields in declaration order.
#[derive(Debug)]
pub struct FitDataRecord {
    kind: profile::MesgNum,
    fields: Vec<FitDataField>,
}

impl FitDataRecord {
    /// The stored message kind.
    pub closed spec fn spec_kind(&self) -> profile::MesgNum {
        self.kind
    }

    /// The stored fields.
    pub closed spec fn spec_fields(&self) -> Seq<FitDataField> {
        self.fields@
    }

    /// Create an empty data record of a given kind.
    pub fn new(kind: profile::MesgNum) -> (r: FitDataRecord)
        ensures
            r.spec_kind() == kind,
            r.spec_fields() == Seq::<FitDataField>::empty(),
    {
        FitDataRecord { kind, fields: Vec::new() }
    }

    /// Return the kind of record; this value is defined by the FIT profile.
    pub fn kind(&self) -> (r: profile::MesgNum)
        ensures
            r == self.spec_kind(),
    {
        self.kind
    }

    /// The fields present in this record, in declaration order.
    pub fn fields(&self) -> (r: &[FitDataField])
        ensures
            r@ == self.spec_fields(),
    {
        self.fields.as_slice()
    }

    /// Add a field to the record.
    pub fn push(&mut self, field: FitDataField)
        ensures
            final(self).spec_kind() == old(self).spec_kind(),
            final(self).spec_fields() == old(self).spec_fields().push(field),
    {
        self.fields.push(field);
    }

    /// Reshape into a `(global message number, field number -> value)` mapping,
    /// dropping names and units.  Field order is kept.
    pub fn into_number_key_plain_value_mapping(self) -> (r: RecordMapping<u16, u8, Value>)
        ensures
            r.kind == profile::mesg_num_value(self.spec_kind()),
            r.fields@.len() == self.spec_fields().len(),
            forall|i: int|
                0 <= i < r.fields@.len() ==> r.fields@[i].0 == self.spec_fields()[i].spec_number()
                    && r.fields@[i].1 == self.spec_fields()[i].spec_value(),
    {
        let mut mapping: RecordMapping<u16, u8, Value> = RecordMapping::new(self.kind.as_u16());
        let mut fields = self.fields;
        let ghost all: Seq<FitDataField> = fields@;
        while fields.len() > 0
            invariant
                mapping.fields@.len() + fields@.len() == all.len(),
                fields@ == all.subrange(all.len() - fields@.len(), all.len() as int),
                mapping.kind == profile::mesg_num_value(self.spec_kind()),
                forall|j: int|
                    0 <= j < mapping.fields@.len() ==> mapping.fields@[j].0 == all[j].spec_number()
                        && mapping.fields@[j].1 == all[j].spec_value(),
            decreases fields.len(),
        {
            let ghost i: int = mapping.fields@.len() as int;
            let field = fields.remove(0);
            proof {
                assert(all.subrange(i, all.len() as int)[0] == all[i]);
                assert(all.subrange(i, all.len() as int).remove(0) =~= all.subrange(
                    i + 1,
                    all.len() as int,
                ));
            }
            mapping.insert(field.number, field.value);
        }
        mapping
    }

    /// Reshape into a `(global message number, field number -> value + units)`
    /// mapping.  Field order is kept.
    pub fn into_number_key_value_with_units_mapping(self) -> (r: RecordMapping<
        u16,
        u8,
        ValueWithUnits,
    >)
        ensures
            r.kind == profile::mesg_num_value(self.spec_kind()),
            r.fields@.len() == self.spec_fields().len(),
            forall|i: int|
                0 <= i < r.fields@.len() ==> r.fields@[i].0 == self.spec_fields()[i].spec_number()
                    && r.fields@[i].1.value == self.spec_fields()[i].spec_value()
                    && r.fields@[i].1.units@ == self.spec_fields()[i].spec_units(),
    {
        let mut mapping: RecordMapping<u16, u8, ValueWithUnits> = RecordMapping::new(
            self.kind.as_u16(),
        );
        let mut fields = self.fields;
        let ghost all: Seq<FitDataField> = fields@;
        while fields.len() > 0
            invariant
                mapping.fields@.len() + fields@.len() == all.len(),
                fields@ == all.subrange(all.len() - fields@.len(), all.len() as int),
                mapping.kind == profile::mesg_num_value(self.spec_kind()),
                forall|j: int|
                    0 <= j < mapping.fields@.len() ==> mapping.fields@[j].0 == all[j].spec_number()
                        && mapping.fields@[j].1.value == all[j].spec_value()
                        && mapping.fields@[j].1.units@ == all[j].spec_units(),
            decreases fields.len(),
        {
            let ghost i: int = mapping.fields@.len() as int;
            let field = fields.remove(0);
            proof {
                assert(all.subrange(i, all.len() as int)[0] == all[i]);
                assert(all.subrange(i, all.len() as int).remove(0) =~= all.subrange(
                    i + 1,
                    all.len() as int,
                ));
            }
            mapping.insert(
                field.number,
                ValueWithUnits { value: field.value, units: field.units },
            );
        }
        mapping
    }

    /// Reshape into a `(message name, field name -> value)` mapping, for
    /// consumers that do not know the FIT profile.  Field order is kept.
    pub fn into_name_key_plain_value_mapping(self) -> (r: RecordMapping<String, String, Value>)
        ensures
            r.kind@ == profile::mesg_name_seq(self.spec_kind()),
            r.fields@.len() == self.spec_fields().len(),
            forall|i: int|
                0 <= i < r.fields@.len() ==> r.fields@[i].0@ == self.spec_fields()[i].spec_name()
                    && r.fields@[i].1 == self.spec_fields()[i].spec_value(),
    {
        let mut mapping: RecordMapping<String, String, Value> = RecordMapping::new(
            self.kind.name(),
        );
        let mut fields = self.fields;
        let ghost all: Seq<FitDataField> = fields@;
        while fields.len() > 0
            invariant
                mapping.fields@.len() + fields@.len() == all.len(),
                fields@ == all.subrange(all.len() - fields@.len(), all.len() as int),
                mapping.kind@ == profile::mesg_name_seq(self.spec_kind()),
                forall|j: int|
                    0 <= j < mapping.fields@.len() ==> mapping.fields@[j].0@ == all[j].spec_name()
                        && mapping.fields@[j].1 == all[j].spec_value(),
            decreases fields.len(),
        {
            let ghost i: int = mapping.fields@.len() as int;
            let field = fields.remove(0);
            proof {
                assert(all.subrange(i, all.len() as int)[0] == all[i]);
                assert(all.subrange(i, all.len() as int).remove(0) =~= all.subrange(
                    i + 1,
                    all.len() as int,
                ));
            }
            mapping.insert(field.name, field.value);
        }
        mapping
    }

    /// Reshape into a `(message name, field name -> value + units)` mapping,
    /// the most self-describing shape.  Field order is kept.
    pub fn into_name_key_value_with_units_mapping(self) -> (r: RecordMapping<
        String,
        String,
        ValueWithUnits,
    >)
        ensures
            r.kind@ == profile::mesg_name_seq(self.spec_kind()),
            r.fields@.len() == self.spec_fields().len(),
            forall|i: int|
                0 <= i < r.fields@.len() ==> r.fields@[i].0@ == self.spec_fields()[i].spec_name()
                    && r.fields@[i].1.value == self.spec_fields()[i].spec_value()
                    && r.fields@[i].1.units@ == self.spec_fields()[i].spec_units(),
    {
        let mut mapping: RecordMapping<String, String, ValueWithUnits> = RecordMapping::new(
            self.kind.name(),
        );
        let mut fields = self.fields;
        let ghost all: Seq<FitDataField> = fields@;
        while fields.len() > 0
            invariant
                mapping.fields@.len() + fields@.len() == all.len(),
                fields@ == all.subrange(all.len() - fields@.len(), all.len() as int),
                mapping.kind@ == profile::mesg_name_seq(self.spec_kind()),
                forall|j: int|
                    0 <= j < mapping.fields@.len() ==> mapping.fields@[j].0@ == all[j].spec_name()
                        && mapping.fields@[j].1.value == all[j].spec_value()
                        && mapping.fields@[j].1.units@ == all[j].spec_units(),
            decreases fields.len(),
        {
            let ghost i: int = mapping.fields@.len() as int;
            let field = fields.remove(0);
            proof {
                assert(all.subrange(i, all.len() as int)[0] == all[i]);
                assert(all.subrange(i, all.len() as int).remove(0) =~= all.subrange(
                    i + 1,
                    all.len() as int,
                ));
            }
            mapping.insert(
                field.name,
                ValueWithUnits { value: field.value, units: field.units },
            );
        }
        mapping
    }
}

/// A value together with the units the FIT profile defines for it.
#[derive(Debug)]
pub struct ValueWithUnits {
    /// The decoded value.
    pub value: Value,
    /// The units, empty when the profile gives none.
    pub units: String,
}

/// A record reshaped for serialization: the message key and the fields as
/// ordered key/value pairs.
#[derive(Debug)]
pub struct RecordMapping<K, I, V> {
    /// The key naming the message: its number or its profile name.
    pub kind: K,
    /// The fields as ordered key/value pairs.
    pub fields: Vec<(I, V)>,
}

impl<K, I, V> RecordMapping<K, I, V> {
    /// An empty mapping for a message key.
    pub fn new(kind: K) -> (r: RecordMapping<K, I, V>)
        ensures
            r.kind == kind,
            r.fields@ == Seq::<(I, V)>::empty(),
    {
        RecordMapping { kind, fields: Vec::new() }
    }

    /// Append one field pair; insertion order is kept.
    pub fn insert(&mut self, key: I, value: V)
        ensures
            final(self).kind == old(self).kind,
            final(self).fields@ == old(self).fields@.push((key, value)),
    {
        self.fields.push((key, value));
    }
}

} // verus!
