//! Decoding synthetic FIT streams: framing, definitions, sentinel
//! handling, record and lap assembly, ordering, and statistics.

use ve_analyzer::fit_decoder::{DecodeError, FitDecoder};
use ve_analyzer::fit_parser::parse_fit_file;
use ve_analyzer::fit_values::{semicircles_to_microdegrees, FieldValue, FIT_TIME_EPOCH};
use ve_analyzer::fitparser_wrapper::FitParserWrapper;
use ve_analyzer::validator::{SecurityValidator, ValidationError};

fn le16(v: u16) -> [u8; 2] {
    [(v & 0xFF) as u8, (v >> 8) as u8]
}

fn le32(v: u32) -> [u8; 4] {
    [
        (v & 0xFF) as u8,
        ((v >> 8) & 0xFF) as u8,
        ((v >> 16) & 0xFF) as u8,
        ((v >> 24) & 0xFF) as u8,
    ]
}

/// A FIT blob: twelve-byte header, the given message bytes, two CRC bytes.
fn fit_file(messages: &[u8]) -> Vec<u8> {
    let mut out = Vec::new();
    out.push(12u8); // header size
    out.push(16u8); // protocol version
    out.extend_from_slice(&le16(100)); // profile version
    out.extend_from_slice(&le32(messages.len() as u32)); // data size
    out.extend_from_slice(b".FIT");
    out.extend_from_slice(messages);
    out.extend_from_slice(&[0u8, 0u8]); // file CRC, ignored
    out
}

/// A definition message for records carrying timestamp (u32), power
/// (u16), and speed (u16).
fn record_definition(local: u8) -> Vec<u8> {
    let mut out = Vec::new();
    out.push(0x40 | local);
    out.push(0); // reserved
    out.push(0); // architecture: little-endian
    out.extend_from_slice(&le16(20)); // global message: record
    out.push(3); // field count
    out.extend_from_slice(&[253, 4, 0x86]); // timestamp, u32
    out.extend_from_slice(&[7, 2, 0x84]); // power, u16
    out.extend_from_slice(&[6, 2, 0x84]); // speed, u16
    out
}

#[test]
fn test_signature_rejected() {
    let mut data = fit_file(&[]);
    data[9] = b'X';
    assert_eq!(
        SecurityValidator::new().validate_fit_data(&data),
        Err(ValidationError::MissingSignature)
    );
    assert!(matches!(FitDecoder::new(data.clone()), Err(DecodeError::BadSignature)));
    assert!(matches!(FitParserWrapper::new(data.clone()), Err(DecodeError::BadSignature)));
    assert!(parse_fit_file(&data).is_err());
}

#[test]
fn test_validator_limits() {
    assert_eq!(
        SecurityValidator::new().validate_fit_data(&[0u8; 5]),
        Err(ValidationError::TooSmall)
    );

    let mut bad_header = fit_file(&[]);
    bad_header[0] = 11;
    assert_eq!(
        SecurityValidator::new().validate_fit_data(&bad_header),
        Err(ValidationError::CorruptedHeader)
    );

    let mut oversized = vec![0u8; 50_000_001];
    oversized[0] = 12;
    oversized[8] = b'.';
    oversized[9] = b'F';
    oversized[10] = b'I';
    oversized[11] = b'T';
    assert_eq!(
        SecurityValidator::new().validate_fit_data(&oversized),
        Err(ValidationError::TooLarge)
    );

    let good = fit_file(&[]);
    assert_eq!(SecurityValidator::new().validate_fit_data(&good), Ok(()));
}

#[test]
fn test_empty_file_yields_nothing() {
    // Header, no data, trailing CRC: zero records, zero laps, no error.
    let data = fit_file(&[]);
    let parsed = parse_fit_file(&data).unwrap();
    assert_eq!(parsed.parsing_statistics().record_count(), 0);
    assert_eq!(parsed.parsing_statistics().lap_count(), 0);
    assert_eq!(parsed.parsing_statistics().file_size(), 14);
    assert!(!parsed.parsing_statistics().has_power_data());
    assert_eq!(parsed.parsing_statistics().duration_seconds(), 0);
}

#[test]
fn test_definition_then_data_round_trip() {
    // One record definition, one hundred samples in descending time
    // order; decoding yields one hundred records ascending, with raw
    // units preserved exactly.
    let mut messages = record_definition(0);
    for j in 0..100u32 {
        messages.push(0x00); // data message, local type 0
        messages.extend_from_slice(&le32(1_000_000_000 - j)); // timestamp
        messages.extend_from_slice(&le16(200)); // power, W
        messages.extend_from_slice(&le16(2500 + j as u16)); // speed, mm/s
    }
    let data = fit_file(&messages);
    let mut decoder = FitDecoder::new(data).unwrap();
    let (records, laps) = decoder.parse().unwrap();
    assert_eq!(records.len(), 100);
    assert_eq!(laps.len(), 0);
    for i in 0..100usize {
        let j = 99 - i as u32;
        let rec = &records[i];
        assert_eq!(rec.timestamp, (1_000_000_000 - j) as u64 + FIT_TIME_EPOCH);
        assert_eq!(rec.power, Some(200));
        assert_eq!(rec.speed, Some(2500 + j as u16));
        // Speed converts to meters per second by a factor of a thousand.
        let speed_ms = rec.speed.unwrap() as f64 / 1000.0;
        assert!((speed_ms - (2.5 + j as f64 / 1000.0)).abs() < 1e-9);
        if i > 0 {
            assert!(records[i - 1].timestamp <= rec.timestamp);
        }
    }
}

#[test]
fn test_invalid_sentinel_power() {
    // The all-ones sentinel in a u16 power field means no power.
    let mut messages = record_definition(3);
    messages.push(0x03);
    messages.extend_from_slice(&le32(1000));
    messages.extend_from_slice(&[0xFF, 0xFF]); // power sentinel
    messages.extend_from_slice(&le16(1500));
    let data = fit_file(&messages);
    let mut decoder = FitDecoder::new(data).unwrap();
    let (records, _) = decoder.parse().unwrap();
    assert_eq!(records.len(), 1);
    assert_eq!(records[0].power, None);
    assert_eq!(records[0].speed, Some(1500));

    assert_eq!(FieldValue::UInt16(0xFFFF).as_power(), None);
    assert_eq!(FieldValue::UInt8(0xFF).as_power(), None);
    assert_eq!(FieldValue::UInt16(250).as_power(), Some(250));
}

#[test]
fn test_semicircle_to_degrees() {
    // 1073741824 semicircles are exactly ninety degrees.
    assert_eq!(semicircles_to_microdegrees(1_073_741_824), 90_000_000);
    assert_eq!(semicircles_to_microdegrees(-1_073_741_824), -90_000_000);
    assert_eq!(semicircles_to_microdegrees(0), 0);

    // The same value through a decoded record.
    let mut messages = Vec::new();
    messages.push(0x40); // definition, local 0
    messages.push(0);
    messages.push(0);
    messages.extend_from_slice(&le16(20));
    messages.push(2);
    messages.extend_from_slice(&[253, 4, 0x86]); // timestamp
    messages.extend_from_slice(&[0, 4, 0x85]); // latitude, i32 semicircles
    messages.push(0x00);
    messages.extend_from_slice(&le32(1000));
    messages.extend_from_slice(&le32(0x4000_0000)); // 2^30 semicircles
    let data = fit_file(&messages);
    let mut decoder = FitDecoder::new(data).unwrap();
    let (records, _) = decoder.parse().unwrap();
    assert_eq!(records.len(), 1);
    assert_eq!(records[0].position_lat, Some(1_073_741_824));
    assert_eq!(semicircles_to_microdegrees(records[0].position_lat.unwrap()), 90_000_000);
}

#[test]
fn test_lap_derivation_from_timestamp() {
    // A lap with only a message timestamp and an elapsed time: the
    // start is the timestamp minus the elapsed time, the end is the
    // timestamp.
    let mut messages = Vec::new();
    messages.push(0x41); // definition, local 1
    messages.push(0);
    messages.push(0);
    messages.extend_from_slice(&le16(19)); // global message: lap
    messages.push(2);
    messages.extend_from_slice(&[253, 4, 0x86]); // timestamp
    messages.extend_from_slice(&[7, 4, 0x86]); // total elapsed time, ms
    messages.push(0x01); // data, local 1
    messages.extend_from_slice(&le32(1000));
    messages.extend_from_slice(&le32(60_000)); // one minute
    let data = fit_file(&messages);
    let mut decoder = FitDecoder::new(data).unwrap();
    let (records, laps) = decoder.parse().unwrap();
    assert_eq!(records.len(), 0);
    assert_eq!(laps.len(), 1);
    let end_ms = ((1000 + FIT_TIME_EPOCH) as u64) * 1000;
    assert_eq!(laps[0].end_time, end_ms);
    assert_eq!(laps[0].start_time, end_ms - 60_000);
    assert_eq!(laps[0].total_elapsed_time, 60_000);
    assert!(laps[0].start_time <= laps[0].end_time);
}

#[test]
fn test_lap_start_time_preferred() {
    // With a start time present, the end is start plus elapsed.
    let mut messages = Vec::new();
    messages.push(0x41);
    messages.push(0);
    messages.push(0);
    messages.extend_from_slice(&le16(19));
    messages.push(3);
    messages.extend_from_slice(&[253, 4, 0x86]); // timestamp
    messages.extend_from_slice(&[2, 4, 0x86]); // start time
    messages.extend_from_slice(&[7, 4, 0x86]); // elapsed, ms
    messages.push(0x01);
    messages.extend_from_slice(&le32(5000)); // message timestamp
    messages.extend_from_slice(&le32(4000)); // start time
    messages.extend_from_slice(&le32(90_000));
    let data = fit_file(&messages);
    let mut decoder = FitDecoder::new(data).unwrap();
    let (_, laps) = decoder.parse().unwrap();
    assert_eq!(laps.len(), 1);
    let start_ms = ((4000 + FIT_TIME_EPOCH) as u64) * 1000;
    assert_eq!(laps[0].start_time, start_ms);
    assert_eq!(laps[0].end_time, start_ms + 90_000);
}

#[test]
fn test_compressed_timestamp_header() {
    // A header with bit seven set is read as a data message for the
    // local type in bits five and six.
    let mut messages = record_definition(0);
    messages.push(0x80); // compressed header, local type 0
    messages.extend_from_slice(&le32(2000));
    messages.extend_from_slice(&le16(150));
    messages.extend_from_slice(&le16(3000));
    let data = fit_file(&messages);
    let mut decoder = FitDecoder::new(data).unwrap();
    let (records, _) = decoder.parse().unwrap();
    assert_eq!(records.len(), 1);
    assert_eq!(records[0].power, Some(150));
}

#[test]
fn test_resynchronization_after_garbage() {
    // A data message for an undefined local type consumes its header
    // byte and the recovery skips one more; the decoder still reads the
    // valid messages that follow.
    let mut messages = Vec::new();
    messages.push(0x0F); // data for undefined local type fifteen
    messages.push(0xAA); // swallowed by the one-byte resynchronization
    messages.extend_from_slice(&record_definition(0));
    messages.push(0x00);
    messages.extend_from_slice(&le32(3000));
    messages.extend_from_slice(&le16(210));
    messages.extend_from_slice(&le16(2700));
    let data = fit_file(&messages);
    let mut decoder = FitDecoder::new(data).unwrap();
    let (records, _) = decoder.parse().unwrap();
    assert_eq!(records.len(), 1);
    assert_eq!(records[0].power, Some(210));
}

#[test]
fn test_oversized_field_count_recovery() {
    // A definition declaring over one hundred fields is rejected and
    // skipped byte by byte without aborting the parse.
    let mut messages = Vec::new();
    messages.push(0x40);
    messages.push(0);
    messages.push(0);
    messages.extend_from_slice(&le16(20));
    messages.push(101); // unreasonable field count
    messages.push(0xAA); // swallowed by the one-byte resynchronization
    messages.extend_from_slice(&record_definition(0));
    messages.push(0x00);
    messages.extend_from_slice(&le32(4000));
    messages.extend_from_slice(&le16(190));
    messages.extend_from_slice(&le16(2600));
    let data = fit_file(&messages);
    let mut decoder = FitDecoder::new(data).unwrap();
    let (records, _) = decoder.parse().unwrap();
    assert_eq!(records.len(), 1);
    assert_eq!(records[0].power, Some(190));
}

#[test]
fn test_statistics() {
    // Ten samples: five with power, cumulative distance, constant speed.
    let mut messages = Vec::new();
    messages.push(0x40);
    messages.push(0);
    messages.push(0);
    messages.extend_from_slice(&le16(20));
    messages.push(4);
    messages.extend_from_slice(&[253, 4, 0x86]); // timestamp
    messages.extend_from_slice(&[7, 2, 0x84]); // power
    messages.extend_from_slice(&[6, 2, 0x84]); // speed
    messages.extend_from_slice(&[5, 4, 0x86]); // distance, cm
    for j in 0..10u32 {
        messages.push(0x00);
        messages.extend_from_slice(&le32(100 + j));
        messages.extend_from_slice(&le16(if j < 5 { 200 } else { 0 }));
        messages.extend_from_slice(&le16(1000));
        messages.extend_from_slice(&le32(j * 110));
    }
    let data = fit_file(&messages);
    let parsed = parse_fit_file(&data).unwrap();
    let stats = parsed.parsing_statistics();
    assert_eq!(stats.record_count(), 10);
    assert!(stats.has_power_data());
    assert!(!stats.has_gps_data());
    assert_eq!(stats.duration_seconds(), 9);
    assert_eq!(stats.max_power(), 200);
    assert_eq!(stats.avg_power(), 200_000); // milliwatts over positive samples
    assert_eq!(stats.max_speed_ms(), 1000); // millimeters per second
    assert_eq!(stats.avg_speed_ms(), 1_000_000); // micrometers per second
    assert_eq!(stats.total_distance_m(), 9); // 990 cm, floored to meters
    let fd = parsed.fit_data();
    assert_eq!(fd.record_count(), 10);
    assert_eq!(fd.velocity()[0], 1000);
    assert_eq!(fd.air_speed().len(), 10);
    assert_eq!(fd.air_speed()[3], 0);
}

#[test]
fn test_altitude_and_distance_units() {
    // Altitude raw counts fifths of a meter offset by five hundred
    // meters; the decoder reports centimeters.
    assert_eq!(FieldValue::UInt16(2500).as_altitude(), Some(0));
    assert_eq!(FieldValue::UInt16(2505).as_altitude(), Some(100));
    assert_eq!(FieldValue::UInt16(0).as_altitude(), Some(-50_000));
    assert_eq!(FieldValue::UInt16(0xFFFF).as_altitude(), None);
    assert_eq!(FieldValue::UInt32(123_456).as_distance(), Some(123_456));
    assert_eq!(FieldValue::UInt32(0xFFFF_FFFF).as_distance(), None);
    assert_eq!(FieldValue::UInt32(0xFFFF_FFFF).as_timestamp(), None);
    assert_eq!(FieldValue::UInt32(5).as_timestamp(), Some(5 + FIT_TIME_EPOCH));
}

#[test]
fn test_definition_replacement() {
    // A new definition for the same local type replaces the prior one.
    let mut messages = record_definition(0);
    messages.push(0x00);
    messages.extend_from_slice(&le32(7000));
    messages.extend_from_slice(&le16(220)); // power under the first layout
    messages.extend_from_slice(&le16(2800));
    // Redefine local type zero: timestamp and distance only.
    messages.push(0x40);
    messages.push(0);
    messages.push(0);
    messages.extend_from_slice(&le16(20));
    messages.push(2);
    messages.extend_from_slice(&[253, 4, 0x86]);
    messages.extend_from_slice(&[5, 4, 0x86]); // distance, cm
    messages.push(0x00);
    messages.extend_from_slice(&le32(7001));
    messages.extend_from_slice(&le32(12_345));
    let data = fit_file(&messages);
    let mut decoder = FitDecoder::new(data).unwrap();
    let (records, _) = decoder.parse().unwrap();
    assert_eq!(records.len(), 2);
    assert_eq!(records[0].power, Some(220));
    assert_eq!(records[0].distance, None);
    assert_eq!(records[1].power, None);
    assert_eq!(records[1].distance, Some(12_345));
}

#[test]
fn test_unusual_base_types() {
    // Power can arrive as a single byte, and string fields are skipped
    // without derailing the fields that follow.
    let mut messages = Vec::new();
    messages.push(0x40);
    messages.push(0);
    messages.push(0);
    messages.extend_from_slice(&le16(20));
    messages.push(3);
    messages.extend_from_slice(&[253, 4, 0x86]); // timestamp
    messages.extend_from_slice(&[99, 3, 0x07]); // a string field, skipped
    messages.extend_from_slice(&[7, 1, 0x02]); // power as one byte
    messages.push(0x00);
    messages.extend_from_slice(&le32(8000));
    messages.extend_from_slice(&[65, 66, 67]); // string bytes
    messages.push(42);
    let data = fit_file(&messages);
    let mut decoder = FitDecoder::new(data).unwrap();
    let (records, _) = decoder.parse().unwrap();
    assert_eq!(records.len(), 1);
    assert_eq!(records[0].power, Some(42));
}

#[test]
fn test_wrapper_holds_bytes() {
    let data = fit_file(&[]);
    let wrapper = FitParserWrapper::new(data.clone()).unwrap();
    assert_eq!(wrapper.data().as_slice(), data.as_slice());
    assert_eq!(wrapper.into_data(), data);
    assert!(matches!(FitParserWrapper::new(vec![1, 2, 3]), Err(DecodeError::TooSmall)));
}
