//! One test per payload decoder: each known type key on a concrete wire
//! record, with the exact decoded value and consumed length.

use gpmf::block::Block;
use gpmf::decode::parse_block;
use gpmf::error::ParseError;

/// Builds one wire record: key, tag, size, big-endian count, payload, pad.
fn rec(key: &[u8; 4], tag: u8, size: u8, count: u16, payload: &[u8], pad: &[u8]) -> Vec<u8> {
    let mut v = Vec::new();
    v.extend_from_slice(key);
    v.push(tag);
    v.push(size);
    v.extend_from_slice(&count.to_be_bytes());
    v.extend_from_slice(payload);
    v.extend_from_slice(pad);
    v
}

#[test]
fn total_samples_scalar() {
    let buf = rec(b"TSMP", b'L', 4, 1, &[0x00, 0x00, 0x00, 0x64], &[]);
    assert_eq!(parse_block(&buf), Ok((Block::TotalSamples(100), 12)));
}

#[test]
fn acceleration_two_triplets() {
    let buf = rec(
        b"ACCL",
        b's',
        6,
        2,
        &[0, 1, 0, 2, 0, 3, 0, 4, 0, 5, 0, 6],
        &[],
    );
    assert_eq!(
        parse_block(&buf),
        Ok((Block::Acceleration(vec![(1, 2, 3), (4, 5, 6)]), 20))
    );
}

#[test]
fn gyroscope_negative_components() {
    let buf = rec(b"GYRO", b's', 6, 1, &[0xff, 0xff, 0x00, 0x02, 0xff, 0xfe], &[0, 0]);
    assert_eq!(parse_block(&buf), Ok((Block::Gyroscope(vec![(-1, 2, -2)]), 16)));
}

#[test]
fn gravity_vector_padded() {
    let buf = rec(b"GRAV", b's', 6, 1, &[0, 0, 0, 0, 0x40, 0x00], &[0xaa, 0xbb]);
    assert_eq!(parse_block(&buf), Ok((Block::GravityVector(vec![(0, 0, 0x4000)]), 16)));
}

#[test]
fn device_id_code() {
    let buf = rec(b"DVID", b'L', 4, 1, &[1, 2, 3, 4], &[]);
    assert_eq!(parse_block(&buf), Ok((Block::DeviceID([1, 2, 3, 4]), 12)));
}

#[test]
fn device_name_text() {
    let buf = rec(b"DVNM", b'c', 5, 1, b"Hero5", &[0, 0, 0]);
    assert_eq!(parse_block(&buf), Ok((Block::DeviceName("Hero5".to_string()), 16)));
}

#[test]
fn device_name_multibyte_text() {
    // A two-byte UTF-8 sequence must come back as one decoded character.
    let buf = rec(b"DVNM", b'c', 2, 1, &[0xc2, 0xb5], &[0, 0]);
    let (block, consumed) = parse_block(&buf).unwrap();
    assert_eq!(consumed, 12);
    match block {
        Block::DeviceName(name) => {
            assert_eq!(name, "\u{b5}");
            assert_eq!(name.chars().count(), 1);
        }
        other => panic!("expected a device name, got {:?}", other),
    }
}

#[test]
fn device_name_invalid_text() {
    let buf = rec(b"DVNM", b'c', 4, 1, &[0xff, 0xfe, 0xfd, 0xfc], &[]);
    assert_eq!(parse_block(&buf), Err(ParseError::InvalidText));
}

#[test]
fn stream_name_text() {
    let buf = rec(b"STNM", b'c', 1, 4, b"gyro", &[]);
    assert_eq!(parse_block(&buf), Ok((Block::StreamName("gyro".to_string()), 12)));
}

#[test]
fn input_orientation_text() {
    let buf = rec(b"ORIN", b'c', 3, 1, b"ZXY", &[0]);
    assert_eq!(parse_block(&buf), Ok((Block::InputOrientation("ZXY".to_string()), 12)));
}

#[test]
fn type_label_text() {
    let buf = rec(b"TYPE", b'c', 1, 1, b"f", &[0, 0, 0]);
    assert_eq!(parse_block(&buf), Ok((Block::Type("f".to_string()), 12)));
}

#[test]
fn start_timestamp_u64() {
    let buf = rec(b"STMP", b'J', 8, 1, &[1, 2, 3, 4, 5, 6, 7, 8], &[]);
    assert_eq!(
        parse_block(&buf),
        Ok((Block::StartTimestamp(0x0102030405060708), 16))
    );
}

#[test]
fn units_suffix_corrected() {
    // Element size 5, count 1: four text bytes, the last the raw
    // squared/inverse marker, which decodes as the ASCII digit 2.
    let buf = rec(b"SIUN", b'c', 5, 1, &[b'm', b'/', b's', 0xb2], &[]);
    assert_eq!(parse_block(&buf), Ok((Block::UnitsSI("m/s2".to_string()), 12)));
}

#[test]
fn units_no_suffix_kept() {
    let buf = rec(b"SIUN", b'c', 4, 1, b"rad", &[0]);
    assert_eq!(parse_block(&buf), Ok((Block::UnitsSI("rad".to_string()), 12)));
}

#[test]
fn units_alias_key() {
    // The alternate unit-string key decodes by the same rule.
    let buf = rec(b"UNIT", b'c', 3, 2, b"m/s2", &[]);
    assert_eq!(parse_block(&buf), Ok((Block::UnitsSI("m/s2".to_string()), 12)));
}

#[test]
fn units_size_zero_rejected() {
    let buf = rec(b"SIUN", b'c', 0, 1, &[], &[]);
    assert_eq!(parse_block(&buf), Err(ParseError::FormatMismatch));
}

#[test]
fn scaling_factor_short() {
    let buf = rec(b"SCAL", b's', 2, 1, &[0xff, 0x38], &[0, 0]);
    assert_eq!(parse_block(&buf), Ok((Block::ScalingFactorS(-200), 12)));
}

#[test]
fn scaling_factor_long_list() {
    let buf = rec(
        b"SCAL",
        b'l',
        4,
        2,
        &[0x00, 0x09, 0x27, 0xc0, 0xff, 0xff, 0xff, 0xff],
        &[],
    );
    assert_eq!(
        parse_block(&buf),
        Ok((Block::ScalingFactorL(vec![600000, -1]), 16))
    );
}

#[test]
fn scaling_factor_bad_tag() {
    let buf = rec(b"SCAL", b'f', 4, 1, &[0, 0, 0, 0], &[]);
    assert_eq!(parse_block(&buf), Err(ParseError::FormatMismatch));
}

#[test]
fn temperature_float_bits() {
    let buf = rec(b"TMPC", b'f', 4, 1, &25.5f32.to_be_bytes(), &[]);
    let (block, consumed) = parse_block(&buf).unwrap();
    assert_eq!(consumed, 12);
    match block {
        Block::Temperature(bits) => assert_eq!(f32::from_bits(bits), 25.5),
        other => panic!("expected a temperature, got {:?}", other),
    }
}

#[test]
fn shutter_speed_float_bits() {
    let buf = rec(b"SHUT", b'f', 4, 1, &0.0025f32.to_be_bytes(), &[]);
    let (block, consumed) = parse_block(&buf).unwrap();
    assert_eq!(consumed, 12);
    match block {
        Block::ShutterSpeed(v) => {
            assert_eq!(v.len(), 1);
            assert_eq!(f32::from_bits(v[0]), 0.0025);
        }
        other => panic!("expected shutter speeds, got {:?}", other),
    }
}

#[test]
fn white_balance_list_padded() {
    let buf = rec(b"WBAL", b'S', 2, 3, &[0x15, 0xe0, 0x19, 0x64, 0x1d, 0x4c], &[9, 9]);
    assert_eq!(
        parse_block(&buf),
        Ok((Block::WhiteBalance(vec![5600, 6500, 7500]), 16))
    );
}

#[test]
fn white_balance_gains_triple() {
    let mut payload = Vec::new();
    payload.extend_from_slice(&1.0f32.to_be_bytes());
    payload.extend_from_slice(&1.5f32.to_be_bytes());
    payload.extend_from_slice(&2.0f32.to_be_bytes());
    let buf = rec(b"WRGB", b'f', 12, 1, &payload, &[]);
    let (block, consumed) = parse_block(&buf).unwrap();
    assert_eq!(consumed, 20);
    match block {
        Block::WhiteBalanceRGBGains(v) => {
            assert_eq!(v.len(), 1);
            assert_eq!(f32::from_bits(v[0].0), 1.0);
            assert_eq!(f32::from_bits(v[0].1), 1.5);
            assert_eq!(f32::from_bits(v[0].2), 2.0);
        }
        other => panic!("expected white-balance gains, got {:?}", other),
    }
}

#[test]
fn iso_list() {
    let buf = rec(b"ISOE", b'S', 2, 2, &[0x00, 0x64, 0x03, 0x20], &[]);
    assert_eq!(parse_block(&buf), Ok((Block::ISO(vec![100, 800]), 12)));
}

#[test]
fn image_uniformity_float_bits() {
    let buf = rec(b"UNIF", b'f', 4, 1, &0.75f32.to_be_bytes(), &[]);
    let (block, _) = parse_block(&buf).unwrap();
    match block {
        Block::ImageUniformity(v) => assert_eq!(f32::from_bits(v[0]), 0.75),
        other => panic!("expected image uniformity, got {:?}", other),
    }
}

#[test]
fn location_fix_scalar() {
    let buf = rec(b"GPSF", b'L', 4, 1, &[0, 0, 0, 3], &[]);
    assert_eq!(parse_block(&buf), Ok((Block::GPSF(3), 12)));
}

#[test]
fn location_timestamp_text() {
    let buf = rec(b"GPSU", b'U', 16, 1, b"240102030405.000", &[]);
    assert_eq!(
        parse_block(&buf),
        Ok((Block::GPSTimestamp("240102030405.000".to_string()), 24))
    );
}

#[test]
fn location_timestamp_count_must_be_one() {
    let buf = rec(b"GPSU", b'U', 8, 2, b"24010203", &[]);
    assert_eq!(parse_block(&buf), Err(ParseError::FormatMismatch));
}

#[test]
fn location_precision_pad_unvalidated() {
    // The two bytes after the value are padding: skipped unread, whatever
    // they hold.
    let buf = rec(b"GPSP", b'S', 2, 1, &[0x01, 0xf4], &[0xde, 0xad]);
    assert_eq!(parse_block(&buf), Ok((Block::GPSP(500), 12)));
}

#[test]
fn location_accuracy_code() {
    let buf = rec(b"GPSA", b'F', 4, 1, b"GPS5", &[]);
    assert_eq!(parse_block(&buf), Ok((Block::GPSA(*b"GPS5"), 12)));
}

#[test]
fn location_samples_raw_padded() {
    let buf = rec(b"GPS5", b'l', 3, 2, &[1, 2, 3, 4, 5, 6], &[0, 0]);
    assert_eq!(parse_block(&buf), Ok((Block::GPS5(vec![1, 2, 3, 4, 5, 6]), 16)));
}

#[test]
fn camera_orientation_quartet() {
    let buf = rec(b"CORI", b's', 8, 1, &[0, 1, 0xff, 0xff, 0, 2, 0xff, 0xfe], &[]);
    assert_eq!(
        parse_block(&buf),
        Ok((Block::CameraOrientation(vec![(1, -1, 2, -2)]), 16))
    );
}

#[test]
fn image_orientation_quartet() {
    let buf = rec(b"IORI", b's', 8, 1, &[0, 9, 0, 8, 0, 7, 0, 6], &[]);
    assert_eq!(
        parse_block(&buf),
        Ok((Block::ImageOrientation(vec![(9, 8, 7, 6)]), 16))
    );
}

#[test]
fn wind_processing_pairs() {
    let buf = rec(b"WNDM", b'B', 2, 1, &[1, 55], &[0, 0]);
    assert_eq!(parse_block(&buf), Ok((Block::WindProcessing(vec![(1, 55)]), 12)));
}

#[test]
fn microphone_wet_triples() {
    let buf = rec(b"MWET", b'B', 3, 1, &[10, 20, 30], &[0]);
    assert_eq!(parse_block(&buf), Ok((Block::MicrophoneWet(vec![(10, 20, 30)]), 12)));
}

#[test]
fn audio_level_signed_pairs() {
    let buf = rec(b"AALP", b'b', 2, 2, &[0xf0, 0x10, 0xce, 0x00], &[]);
    assert_eq!(
        parse_block(&buf),
        Ok((Block::AGCAudioLevel(vec![(-16, 16), (-50, 0)]), 12))
    );
}

#[test]
fn main_frame_skip_list() {
    let buf = rec(b"MSKP", b's', 2, 2, &[0, 0, 0xff, 0xff], &[]);
    assert_eq!(parse_block(&buf), Ok((Block::MRVFrameSkip(vec![0, -1]), 12)));
}

#[test]
fn low_res_frame_skip_list() {
    let buf = rec(b"LSKP", b's', 2, 1, &[0, 5], &[0, 0]);
    assert_eq!(parse_block(&buf), Ok((Block::LRVFrameSkip(vec![5]), 12)));
}

#[test]
fn low_res_offset_scalar() {
    let buf = rec(b"LRVO", b'b', 1, 1, &[0xff], &[0, 0, 0]);
    assert_eq!(parse_block(&buf), Ok((Block::LRVO(-1), 12)));
}

#[test]
fn low_res_status_scalar() {
    let buf = rec(b"LRVS", b'b', 1, 1, &[7], &[0, 0, 0]);
    assert_eq!(parse_block(&buf), Ok((Block::LRVS(7), 12)));
}

#[test]
fn custom_fallback_record() {
    let buf = rec(b"ABCD", b'?', 1, 3, &[9, 8, 7], &[0]);
    assert_eq!(
        parse_block(&buf),
        Ok((Block::Custom("ABCD".to_string(), vec![9, 8, 7]), 12))
    );
}

#[test]
fn custom_wrong_tag_is_unknown() {
    let buf = rec(b"ZZZZ", b'x', 1, 3, &[9, 8, 7], &[0]);
    assert_eq!(parse_block(&buf), Err(ParseError::UnknownBlockType));
}

#[test]
fn custom_label_must_be_text() {
    let buf = rec(&[0xff, 0xff, 0xff, 0xff], b'?', 1, 0, &[], &[]);
    assert_eq!(parse_block(&buf), Err(ParseError::InvalidText));
}

#[test]
fn wrong_tag_is_format_mismatch() {
    let buf = rec(b"TSMP", b'S', 4, 1, &[0, 0, 0, 100], &[]);
    assert_eq!(parse_block(&buf), Err(ParseError::FormatMismatch));
}

#[test]
fn wrong_size_is_format_mismatch() {
    let buf = rec(b"ACCL", b's', 4, 1, &[0, 0, 0, 0], &[]);
    assert_eq!(parse_block(&buf), Err(ParseError::FormatMismatch));
}

#[test]
fn wrong_count_is_format_mismatch() {
    let buf = rec(b"TSMP", b'L', 4, 2, &[0, 0, 0, 1, 0, 0, 0, 2], &[]);
    assert_eq!(parse_block(&buf), Err(ParseError::FormatMismatch));
}

#[test]
fn frame_skip_empty_list() {
    let buf = rec(b"MSKP", b's', 2, 0, &[], &[]);
    assert_eq!(parse_block(&buf), Ok((Block::MRVFrameSkip(vec![]), 8)));
}

#[test]
fn units_empty_text() {
    // Element size 1 leaves zero text bytes: the empty unit string.
    let buf = rec(b"SIUN", b'c', 1, 1, &[], &[]);
    assert_eq!(parse_block(&buf), Ok((Block::UnitsSI(String::new()), 8)));
}

#[test]
fn largest_declared_payload() {
    // The largest header: element size 255, count 257, a 65535-byte text
    // payload with one padding byte.
    let payload = vec![b'a'; 255 * 257];
    let buf = rec(b"DVNM", b'c', 255, 257, &payload, &[0]);
    let (block, consumed) = parse_block(&buf).unwrap();
    assert_eq!(consumed, 8 + 65535 + 1);
    match block {
        Block::DeviceName(name) => assert_eq!(name.len(), 65535),
        other => panic!("expected a device name, got {:?}", other),
    }
}

#[test]
fn truncated_header_is_insufficient() {
    assert_eq!(parse_block(b"TSMP"), Err(ParseError::InsufficientData));
}

#[test]
fn truncated_payload_is_insufficient() {
    let buf = rec(b"TSMP", b'L', 4, 1, &[0, 0], &[]);
    assert_eq!(parse_block(&buf), Err(ParseError::InsufficientData));
}

#[test]
fn truncated_padding_is_insufficient() {
    // The five payload bytes are present but the three padding bytes are
    // not: the skip to the 4-byte boundary fails.
    let buf = rec(b"DVNM", b'c', 5, 1, b"Hero5", &[]);
    assert_eq!(parse_block(&buf), Err(ParseError::InsufficientData));
}
