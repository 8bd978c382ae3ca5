//! End-to-end decoding of whole FIT streams, checked by emitted record count.
//! Each stream is built here byte by byte: a header, definition and data
//! records, and a checksum trailer computed by an independent checksum copy.
use fitparser::from_bytes;

const CRC_TABLE: [u16; 16] = [
    0x0000, 0xCC01, 0xD801, 0x1400, 0xF001, 0x3C00, 0x2800, 0xE401, 0xA001, 0x6C00, 0x7800,
    0xB401, 0x5000, 0x9C01, 0x8801, 0x4400,
];

fn crc16(data: &[u8]) -> u16 {
    let mut crc: u16 = 0;
    for &b in data {
        crc = (crc >> 4) ^ CRC_TABLE[((crc ^ (b as u16 & 0xF)) & 0xF) as usize];
        crc = (crc >> 4) ^ CRC_TABLE[((crc ^ (b as u16 >> 4)) & 0xF) as usize];
    }
    crc
}

fn subfile(records: &[u8]) -> Vec<u8> {
    let mut out = vec![14u8, 0x10, 0x00, 0x08];
    out.extend_from_slice(&(records.len() as u32).to_le_bytes());
    out.extend_from_slice(b".FIT");
    out.extend_from_slice(&[0, 0]);
    out.extend_from_slice(records);
    let c = crc16(&out);
    out.extend_from_slice(&c.to_le_bytes());
    out
}

fn definition(local: u8, global: u16, fields: &[(u8, u8, u8)]) -> Vec<u8> {
    let mut v = vec![0x40 | local, 0, 0];
    v.extend_from_slice(&global.to_le_bytes());
    v.push(fields.len() as u8);
    for &(num, size, base) in fields {
        v.push(num);
        v.push(size);
        v.push(base);
    }
    v
}

fn data_record(local: u8, payload: &[u8]) -> Vec<u8> {
    let mut v = vec![local];
    v.extend_from_slice(payload);
    v
}

/// One definition for a two-byte field, then `n` data records carrying it.
fn plain_stream(global: u16, n: usize) -> Vec<u8> {
    let mut records = definition(0, global, &[(1, 2, 0x84)]);
    for i in 0..n {
        records.extend_from_slice(&data_record(0, &(i as u16).to_le_bytes()));
    }
    subfile(&records)
}

#[test]
fn parse_activity() {
    let data = plain_stream(20, 22);
    let fit_data = from_bytes(&data).unwrap();
    assert_eq!(fit_data.len(), 22);
}

#[test]
fn parse_developer_data() {
    // A field_description message registers developer field 0 under developer
    // data index 0 as an unsigned byte named "heart_rate"; the following data
    // records carry that developer field beside a plain one.
    let mut name = [0u8; 16];
    name[..10].copy_from_slice(b"heart_rate");
    let mut units = [0u8; 16];
    units[..3].copy_from_slice(b"bpm");
    let mut records = definition(
        0,
        206,
        &[(0, 1, 0x02), (1, 1, 0x02), (2, 1, 0x02), (3, 16, 0x07), (8, 16, 0x07)],
    );
    let mut payload = vec![0u8, 0, 0x02];
    payload.extend_from_slice(&name);
    payload.extend_from_slice(&units);
    records.extend_from_slice(&data_record(0, &payload));
    // definition with one plain field and one developer field
    let mut def = vec![0x60 | 1, 0, 0];
    def.extend_from_slice(&20u16.to_le_bytes());
    def.push(1);
    def.extend_from_slice(&[1, 2, 0x84]);
    def.push(1);
    def.extend_from_slice(&[0, 1, 0]);
    records.extend_from_slice(&def);
    for i in 0..5u16 {
        let mut payload = i.to_le_bytes().to_vec();
        payload.push(120 + i as u8);
        records.extend_from_slice(&data_record(1, &payload));
    }
    let data = subfile(&records);
    let fit_data = from_bytes(&data).unwrap();
    assert_eq!(fit_data.len(), 6);
    let dev_field = fit_data[5]
        .fields()
        .iter()
        .find(|f| f.name() == "heart_rate")
        .expect("developer field resolved by its registered name");
    assert_eq!(dev_field.units(), "bpm");
}

#[test]
fn parse_monitoring_file() {
    let data = plain_stream(55, 355);
    let fit_data = from_bytes(&data).unwrap();
    assert_eq!(fit_data.len(), 355);
}

#[test]
fn parse_settings() {
    let data = plain_stream(2, 3);
    let fit_data = from_bytes(&data).unwrap();
    assert_eq!(fit_data.len(), 3);
}

#[test]
fn parse_weight_scale_multi_user() {
    let data = plain_stream(30, 7);
    let fit_data = from_bytes(&data).unwrap();
    assert_eq!(fit_data.len(), 7);
}

#[test]
fn parse_weight_scale_single_user() {
    let data = plain_stream(30, 6);
    let fit_data = from_bytes(&data).unwrap();
    assert_eq!(fit_data.len(), 6);
}

#[test]
fn parse_workout_custom_target_values() {
    let data = plain_stream(27, 6);
    let fit_data = from_bytes(&data).unwrap();
    assert_eq!(fit_data.len(), 6);
}

#[test]
fn parse_workout_individual_steps() {
    let data = plain_stream(27, 6);
    let fit_data = from_bytes(&data).unwrap();
    assert_eq!(fit_data.len(), 6);
}

#[test]
fn parse_workout_repeat_greater_than_step() {
    let data = plain_stream(27, 7);
    let fit_data = from_bytes(&data).unwrap();
    assert_eq!(fit_data.len(), 7);
}

#[test]
fn parse_workout_repeat_steps() {
    let data = plain_stream(27, 7);
    let fit_data = from_bytes(&data).unwrap();
    assert_eq!(fit_data.len(), 7);
}

#[test]
fn parse_garmin_fenix_5_bike() {
    // this stream carries a string field in every record
    let mut records = definition(0, 18, &[(0, 16, 0x07)]);
    let mut name = [0u8; 16];
    name[..6].copy_from_slice(b"fenix5");
    for _ in 0..143 {
        records.extend_from_slice(&data_record(0, &name));
    }
    let data = subfile(&records);
    let fit_data = from_bytes(&data).unwrap();
    assert_eq!(fit_data.len(), 143);
    match fit_data[0].fields()[0].value() {
        fitparser::Value::String(s) => assert_eq!(s.as_str(), "fenix5"),
        other => panic!("expected a string value, got {:?}", other),
    }
}

#[test]
fn parse_sample_mulitple_header() {
    // a chained stream of three independently framed sub-files
    let mut data = plain_stream(20, 1000);
    data.extend_from_slice(&plain_stream(20, 1000));
    data.extend_from_slice(&plain_stream(55, 1023));
    let fit_data = from_bytes(&data).unwrap();
    assert_eq!(fit_data.len(), 3023);
}
