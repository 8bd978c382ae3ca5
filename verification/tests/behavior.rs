//! Targeted behavior: the error taxonomy, invalid-sentinel elimination,
//! arrays, compressed timestamps, coercions, the profile, and the record
//! reshaping adapters.
use fitparser::de::{FIT_EPOCH_OFFSET, MIN_ABSOLUTE_TIMESTAMP};
use fitparser::profile::MesgNum;
use fitparser::{from_bytes, ErrorKind, FitDataField, FitDataRecord, Value};

const CRC_TABLE: [u16; 16] = [
    0x0000, 0xCC01, 0xD801, 0x1400, 0xF001, 0x3C00, 0x2800, 0xE401, 0xA001, 0x6C00, 0x7800,
    0xB401, 0x5000, 0x9C01, 0x8801, 0x4400,
];

fn crc16(data: &[u8]) -> u16 {
    let mut crc: u16 = 0;
    for &b in data {
        crc = (crc >> 4) ^ CRC_TABLE[((crc ^ (b as u16 & 0xF)) & 0xF) as usize];
        crc = (crc >> 4) ^ CRC_TABLE[((crc ^ (b as u16 >> 4)) & 0xF) as usize];
    }
    crc
}

fn subfile(records: &[u8]) -> Vec<u8> {
    let mut out = vec![14u8, 0x10, 0x00, 0x08];
    out.extend_from_slice(&(records.len() as u32).to_le_bytes());
    out.extend_from_slice(b".FIT");
    out.extend_from_slice(&[0, 0]);
    out.extend_from_slice(records);
    let c = crc16(&out);
    out.extend_from_slice(&c.to_le_bytes());
    out
}

fn definition(local: u8, global: u16, fields: &[(u8, u8, u8)]) -> Vec<u8> {
    let mut v = vec![0x40 | local, 0, 0];
    v.extend_from_slice(&global.to_le_bytes());
    v.push(fields.len() as u8);
    for &(num, size, base) in fields {
        v.push(num);
        v.push(size);
        v.push(base);
    }
    v
}

fn data_record(local: u8, payload: &[u8]) -> Vec<u8> {
    let mut v = vec![local];
    v.extend_from_slice(payload);
    v
}

#[test]
fn corrupt_magic_is_bad_magic() {
    let mut data = subfile(&definition(0, 20, &[(1, 2, 0x84)]));
    data[8] = b'X';
    match from_bytes(&data) {
        Err(e) => assert!(matches!(e, ErrorKind::BadMagic)),
        Ok(_) => panic!("corrupt magic must not decode"),
    }
}

#[test]
fn flipped_trailer_is_bad_crc() {
    let mut data = subfile(&definition(0, 20, &[(1, 2, 0x84)]));
    let last = data.len() - 1;
    data[last] ^= 0xFF;
    match from_bytes(&data) {
        Err(e) => assert!(matches!(e, ErrorKind::BadCrc { .. })),
        Ok(_) => panic!("a flipped checksum byte must not decode"),
    }
}

#[test]
fn data_without_definition_is_missing_definition() {
    let data = subfile(&[0x00]);
    match from_bytes(&data) {
        Err(e) => match e {
            ErrorKind::MissingDefinition(local) => assert_eq!(local, 0),
            other => panic!("expected a missing-definition error, got {:?}", other),
        },
        Ok(_) => panic!("a data record with no live definition must not decode"),
    }
}

#[test]
fn unregistered_developer_field_is_custom_error() {
    let mut def = vec![0x60, 0, 0];
    def.extend_from_slice(&20u16.to_le_bytes());
    def.push(1);
    def.extend_from_slice(&[1, 2, 0x84]);
    def.push(1);
    def.extend_from_slice(&[0, 1, 0]);
    let mut records = def;
    records.extend_from_slice(&data_record(0, &[0x01, 0x00, 0x7F]));
    let data = subfile(&records);
    match from_bytes(&data) {
        Err(e) => match e {
            ErrorKind::Custom(msg) => assert_eq!(msg, "unknown developer field"),
            other => panic!("expected a custom error, got {:?}", other),
        },
        Ok(_) => panic!("an unregistered developer field must not decode"),
    }
}

#[test]
fn six_byte_uint16_field_decodes_to_array_of_three() {
    let mut records = definition(0, 20, &[(2, 6, 0x84)]);
    records.extend_from_slice(&data_record(0, &[1, 0, 2, 0, 3, 0]));
    let data = subfile(&records);
    let fit_data = from_bytes(&data).unwrap();
    assert_eq!(fit_data.len(), 1);
    match fit_data[0].fields()[0].value() {
        Value::Array(vs) => {
            assert_eq!(vs.len(), 3);
            for (i, v) in vs.iter().enumerate() {
                match v {
                    Value::UInt16(x) => assert_eq!(*x, i as u16 + 1),
                    other => panic!("expected unsigned 16-bit elements, got {:?}", other),
                }
            }
        },
        other => panic!("expected an array value, got {:?}", other),
    }
}

#[test]
fn all_invalid_field_is_dropped() {
    let mut records = definition(0, 20, &[(1, 2, 0x84), (2, 1, 0x02)]);
    records.extend_from_slice(&data_record(0, &[0xFF, 0xFF, 42]));
    let data = subfile(&records);
    let fit_data = from_bytes(&data).unwrap();
    assert_eq!(fit_data.len(), 1);
    assert_eq!(fit_data[0].fields().len(), 1);
    assert_eq!(fit_data[0].fields()[0].number(), 2);
}

#[test]
fn zero_invalid_field_is_dropped() {
    let mut records = definition(0, 20, &[(1, 2, 0x8B)]);
    records.extend_from_slice(&data_record(0, &[0, 0]));
    let data = subfile(&records);
    let fit_data = from_bytes(&data).unwrap();
    assert_eq!(fit_data.len(), 1);
    assert_eq!(fit_data[0].fields().len(), 0);
}

#[test]
fn string_field_is_trimmed_at_nul() {
    let mut records = definition(0, 18, &[(0, 8, 0x07)]);
    records.extend_from_slice(&data_record(0, b"hi\0\0\0\0\0\0"));
    let data = subfile(&records);
    let fit_data = from_bytes(&data).unwrap();
    match fit_data[0].fields()[0].value() {
        Value::String(s) => assert_eq!(s.as_str(), "hi"),
        other => panic!("expected a string value, got {:?}", other),
    }
}

#[test]
fn timestamp_field_becomes_posix_seconds() {
    let mut records = definition(0, 20, &[(253, 4, 0x86)]);
    let fit_seconds: u32 = MIN_ABSOLUTE_TIMESTAMP + 1000;
    records.extend_from_slice(&data_record(0, &fit_seconds.to_le_bytes()));
    let data = subfile(&records);
    let fit_data = from_bytes(&data).unwrap();
    let field = &fit_data[0].fields()[0];
    assert_eq!(field.name(), "timestamp");
    assert_eq!(field.units(), "s");
    match field.value() {
        Value::Timestamp(t) => assert_eq!(*t, fit_seconds as i64 + FIT_EPOCH_OFFSET),
        other => panic!("expected a timestamp value, got {:?}", other),
    }
}

#[test]
fn compressed_timestamps_roll_forward_nondecreasing() {
    let mut records = definition(0, 20, &[(253, 4, 0x86)]);
    records.extend_from_slice(&definition(1, 20, &[(1, 2, 0x84)]));
    let t0: u32 = MIN_ABSOLUTE_TIMESTAMP + 0x1000 + 17;
    records.extend_from_slice(&data_record(0, &t0.to_le_bytes()));
    // compressed records on local type 1: five-bit offsets, some wrapping below 17
    for off in [18u8, 25, 3, 3, 9] {
        records.extend_from_slice(&data_record(0x80 | 0x20 | off, &[7, 0]));
    }
    let data = subfile(&records);
    let fit_data = from_bytes(&data).unwrap();
    assert_eq!(fit_data.len(), 6);
    let mut seen: Vec<i64> = Vec::new();
    for record in &fit_data {
        let field = record
            .fields()
            .iter()
            .find(|f| f.name() == "timestamp")
            .expect("every record carries a timestamp");
        match field.value() {
            Value::Timestamp(t) => seen.push(*t),
            other => panic!("expected a timestamp value, got {:?}", other),
        }
    }
    // the rolling reconstruction: each offset replaces the low five bits,
    // rolling the high bits forward by 32 when the offset wrapped around
    let base = (MIN_ABSOLUTE_TIMESTAMP + 0x1000) as i64 + FIT_EPOCH_OFFSET;
    let expected = vec![base + 17, base + 18, base + 25, base + 0x20 + 3, base + 0x20 + 3,
        base + 0x20 + 9];
    assert_eq!(seen, expected);
    for w in seen.windows(2) {
        assert!(w[0] <= w[1], "timestamps must never go backwards");
    }
}

#[test]
fn chained_decoding_equals_concatenation() {
    let mut a = definition(0, 20, &[(1, 2, 0x84)]);
    a.extend_from_slice(&data_record(0, &[1, 0]));
    let a = subfile(&a);
    let mut b = definition(0, 55, &[(2, 1, 0x02)]);
    b.extend_from_slice(&data_record(0, &[9]));
    let b = subfile(&b);

    let first = from_bytes(&a).unwrap();
    let second = from_bytes(&b).unwrap();
    let mut chained = a.clone();
    chained.extend_from_slice(&b);
    let both = from_bytes(&chained).unwrap();

    assert_eq!(both.len(), first.len() + second.len());
    assert_eq!(both[0].kind().as_u16(), first[0].kind().as_u16());
    assert_eq!(both[1].kind().as_u16(), second[0].kind().as_u16());
    assert_eq!(both[1].fields()[0].number(), second[0].fields()[0].number());
}

#[test]
fn definition_does_not_leak_into_next_subfile() {
    let mut a = definition(0, 20, &[(1, 2, 0x84)]);
    a.extend_from_slice(&data_record(0, &[1, 0]));
    let a = subfile(&a);
    // the second sub-file uses local type 0 without defining it
    let b = subfile(&[0x00]);
    let mut chained = a;
    chained.extend_from_slice(&b);
    match from_bytes(&chained) {
        Err(e) => assert!(matches!(e, ErrorKind::MissingDefinition(0))),
        Ok(_) => panic!("a definition must not survive a sub-file boundary"),
    }
}

#[test]
fn big_endian_definition_decodes_big_endian_payloads() {
    let mut records = vec![0x40, 0, 1];
    records.extend_from_slice(&20u16.to_be_bytes());
    records.push(1);
    records.extend_from_slice(&[1, 2, 0x84]);
    records.extend_from_slice(&data_record(0, &[0x12, 0x34]));
    let data = subfile(&records);
    let fit_data = from_bytes(&data).unwrap();
    match fit_data[0].fields()[0].value() {
        Value::UInt16(v) => assert_eq!(*v, 0x1234),
        other => panic!("expected an unsigned 16-bit value, got {:?}", other),
    }
}

#[test]
fn unknown_base_type_is_rejected() {
    let data = subfile(&definition(0, 20, &[(1, 4, 0x1F)]));
    match from_bytes(&data) {
        Err(e) => match e {
            ErrorKind::UnknownBaseType(b) => assert_eq!(b, 0x1F),
            other => panic!("expected an unknown-base-type error, got {:?}", other),
        },
        Ok(_) => panic!("a base type outside the catalog must not decode"),
    }
}

#[test]
fn size_not_multiple_of_width_is_invalid_field_size() {
    let data = subfile(&definition(0, 20, &[(1, 3, 0x84)]));
    match from_bytes(&data) {
        Err(e) => assert!(matches!(e, ErrorKind::InvalidFieldSize)),
        Ok(_) => panic!("a field size off the base width must not decode"),
    }
}

#[test]
fn bad_header_length_is_parse_error() {
    let mut data = subfile(&definition(0, 20, &[(1, 2, 0x84)]));
    data[0] = 13;
    match from_bytes(&data) {
        Err(e) => assert!(matches!(e, ErrorKind::ParseError(0, _))),
        Ok(_) => panic!("a header length of 13 must not decode"),
    }
}

#[test]
fn truncated_input_is_unexpected_eof() {
    let data = subfile(&definition(0, 20, &[(1, 2, 0x84)]));
    let truncated = &data[..data.len() - 4];
    match from_bytes(truncated) {
        Err(e) => assert!(matches!(e, ErrorKind::UnexpectedEof(_))),
        Ok(_) => panic!("a truncated stream must not decode"),
    }
}

#[test]
fn empty_input_decodes_to_nothing() {
    let fit_data = from_bytes(&[]).unwrap();
    assert_eq!(fit_data.len(), 0);
}

#[test]
fn twelve_byte_header_is_accepted() {
    let mut records = definition(0, 20, &[(1, 2, 0x84)]);
    records.extend_from_slice(&data_record(0, &[1, 0]));
    let mut out = vec![12u8, 0x10, 0x00, 0x08];
    out.extend_from_slice(&(records.len() as u32).to_le_bytes());
    out.extend_from_slice(b".FIT");
    out.extend_from_slice(&records);
    let c = crc16(&out);
    out.extend_from_slice(&c.to_le_bytes());
    let fit_data = from_bytes(&out).unwrap();
    assert_eq!(fit_data.len(), 1);
}

#[test]
fn nonzero_header_crc_is_checked() {
    let mut records = definition(0, 20, &[(1, 2, 0x84)]);
    records.extend_from_slice(&data_record(0, &[1, 0]));
    let mut head = vec![14u8, 0x10, 0x00, 0x08];
    head.extend_from_slice(&(records.len() as u32).to_le_bytes());
    head.extend_from_slice(b".FIT");
    let hc = crc16(&head);
    head.extend_from_slice(&hc.to_le_bytes());
    head.extend_from_slice(&records);
    let c = crc16(&head);
    head.extend_from_slice(&c.to_le_bytes());
    assert_eq!(from_bytes(&head).unwrap().len(), 1);

    // and a wrong nonzero header checksum is rejected
    let mut bad = vec![14u8, 0x10, 0x00, 0x08];
    bad.extend_from_slice(&(records.len() as u32).to_le_bytes());
    bad.extend_from_slice(b".FIT");
    bad.extend_from_slice(&hc.wrapping_add(1).to_le_bytes());
    bad.extend_from_slice(&records);
    let c = crc16(&bad);
    bad.extend_from_slice(&c.to_le_bytes());
    match from_bytes(&bad) {
        Err(e) => assert!(matches!(e, ErrorKind::BadCrc { .. })),
        Ok(_) => panic!("a wrong header checksum must not decode"),
    }
}

#[test]
fn to_i64_covers_every_numeric_variant() {
    assert_eq!(Value::Timestamp(631065600).to_i64().unwrap(), 631065600);
    assert_eq!(Value::Byte(7).to_i64().unwrap(), 7);
    assert_eq!(Value::Enum(3).to_i64().unwrap(), 3);
    assert_eq!(Value::SInt8(-5).to_i64().unwrap(), -5);
    assert_eq!(Value::UInt8(200).to_i64().unwrap(), 200);
    assert_eq!(Value::SInt16(-300).to_i64().unwrap(), -300);
    assert_eq!(Value::UInt16(65535).to_i64().unwrap(), 65535);
    assert_eq!(Value::SInt32(-70000).to_i64().unwrap(), -70000);
    assert_eq!(Value::UInt32(4000000000).to_i64().unwrap(), 4000000000);
    assert_eq!(Value::UInt8z(1).to_i64().unwrap(), 1);
    assert_eq!(Value::UInt16z(2).to_i64().unwrap(), 2);
    assert_eq!(Value::UInt32z(3).to_i64().unwrap(), 3);
    assert_eq!(Value::SInt64(-9).to_i64().unwrap(), -9);
    assert_eq!(Value::UInt64(42).to_i64().unwrap(), 42);
    assert_eq!(Value::UInt64(u64::MAX).to_i64().unwrap(), -1);
    assert_eq!(Value::UInt64z(8).to_i64().unwrap(), 8);
}

#[test]
fn to_i64_rejects_floats_strings_and_arrays() {
    assert!(Value::Float32(0x3F800000).to_i64().is_err());
    assert!(Value::Float64(0x3FF0000000000000).to_i64().is_err());
    assert!(Value::String(String::from("x")).to_i64().is_err());
    assert!(Value::Array(Vec::new()).to_i64().is_err());
}

#[test]
fn mesg_num_roundtrips_and_names() {
    assert!(matches!(MesgNum::from_u16(20), MesgNum::Record));
    assert_eq!(MesgNum::Record.as_u16(), 20);
    assert_eq!(MesgNum::Record.name(), "record");
    assert_eq!(MesgNum::FieldDescription.as_u16(), 206);
    assert!(matches!(MesgNum::from_u16(1234), MesgNum::Unknown(1234)));
    assert_eq!(MesgNum::Unknown(1234).name(), "unknown_1234");
    for n in [0u16, 2, 18, 19, 20, 21, 26, 27, 30, 34, 55, 206, 207, 9999] {
        assert_eq!(MesgNum::from_u16(n).as_u16(), n);
    }
}

#[test]
fn record_mappings_keep_fields_in_order() {
    let mut record = FitDataRecord::new(MesgNum::Record);
    record.push(FitDataField::new(
        String::from("heart_rate"),
        3,
        Value::UInt8(120),
        String::from("bpm"),
    ));
    record.push(FitDataField::new(
        String::from("cadence"),
        4,
        Value::UInt8(90),
        String::from("rpm"),
    ));
    assert_eq!(record.kind().as_u16(), 20);
    assert_eq!(record.fields().len(), 2);
    assert_eq!(record.fields()[0].name(), "heart_rate");

    let by_number = record.into_number_key_plain_value_mapping();
    assert_eq!(by_number.kind, 20);
    assert_eq!(by_number.fields.len(), 2);
    assert_eq!(by_number.fields[0].0, 3);
    assert!(matches!(by_number.fields[0].1, Value::UInt8(120)));
    assert_eq!(by_number.fields[1].0, 4);
}

#[test]
fn record_mapping_by_name_keeps_units() {
    let mut record = FitDataRecord::new(MesgNum::Unknown(321));
    record.push(FitDataField::new(
        String::from("power"),
        7,
        Value::UInt16(250),
        String::from("watts"),
    ));
    let mapping = record.into_name_key_value_with_units_mapping();
    assert_eq!(mapping.kind, "unknown_321");
    assert_eq!(mapping.fields.len(), 1);
    assert_eq!(mapping.fields[0].0, "power");
    assert_eq!(mapping.fields[0].1.units, "watts");
    assert!(matches!(mapping.fields[0].1.value, Value::UInt16(250)));
}

#[test]
fn signed_and_float_bit_patterns_decode() {
    let mut records = definition(
        0,
        20,
        &[(1, 1, 0x01), (2, 2, 0x83), (3, 4, 0x88), (4, 8, 0x8E)],
    );
    let mut payload = vec![0xFEu8];
    payload.extend_from_slice(&(-2i16 as u16).to_le_bytes());
    payload.extend_from_slice(&0x3F800000u32.to_le_bytes());
    payload.extend_from_slice(&(-3i64 as u64).to_le_bytes());
    records.extend_from_slice(&data_record(0, &payload));
    let data = subfile(&records);
    let fit_data = from_bytes(&data).unwrap();
    let fields = fit_data[0].fields();
    assert!(matches!(fields[0].value(), Value::SInt8(-2)));
    assert!(matches!(fields[1].value(), Value::SInt16(-2)));
    assert!(matches!(fields[2].value(), Value::Float32(0x3F800000)));
    assert!(matches!(fields[3].value(), Value::SInt64(-3)));
}

#[test]
fn checksum_matches_the_standard_check_value() {
    // the classic check input of the 16-bit reflected 0x8005 checksum family
    assert_eq!(fitparser::crc::update_region(0, b"123456789", 0, 9), 0xBB3D);
    assert_eq!(crc16(b"123456789"), 0xBB3D);
}
