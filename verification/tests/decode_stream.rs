//! Tests of the record-sequence driver, the grouping containers, the
//! header decoder, the byte cursor, and the decoder's laws on concrete
//! values: determinism, the padding law, container exactness, and the
//! unit-string correction.

use gpmf::block::{Block, RecordHeader};
use gpmf::cursor::{
    parse_size_count, read_be_i16, read_be_i32, read_be_u16, read_be_u32, read_be_u64, read_bytes,
    read_u8,
};
use gpmf::decode::{parse_block, parse_header, parser};
use gpmf::error::ParseError;

fn rec(key: &[u8; 4], tag: u8, size: u8, count: u16, payload: &[u8], pad: &[u8]) -> Vec<u8> {
    let mut v = Vec::new();
    v.extend_from_slice(key);
    v.push(tag);
    v.push(size);
    v.extend_from_slice(&count.to_be_bytes());
    v.extend_from_slice(payload);
    v.extend_from_slice(pad);
    v
}

#[test]
fn container_single_child_exact() {
    // A grouping record of nested length 8 whose sub-buffer is exactly one
    // complete child record of encoded length 8: one child, zero leftover.
    let child = rec(b"MSKP", b's', 2, 0, &[], &[]);
    assert_eq!(child.len(), 8);
    let buf = rec(b"DEVC", 0x00, 8, 1, &child, &[]);
    assert_eq!(
        parse_block(&buf),
        Ok((Block::DeviceSource(vec![Block::MRVFrameSkip(vec![])]), 16))
    );
}

#[test]
fn container_nested_two_levels() {
    let leaf = rec(b"TSMP", b'L', 4, 1, &[0, 0, 0, 42], &[]);
    let stream = rec(b"STRM", 0x00, 12, 1, &leaf, &[]);
    let buf = rec(b"DEVC", 0x00, 20, 1, &stream, &[]);
    assert_eq!(
        parse_block(&buf),
        Ok((
            Block::DeviceSource(vec![Block::Stream(vec![Block::TotalSamples(42)])]),
            28
        ))
    );
}

#[test]
fn container_wrong_tag_is_format_mismatch() {
    let child = rec(b"MSKP", b's', 2, 0, &[], &[]);
    let buf = rec(b"DEVC", b'c', 8, 1, &child, &[]);
    assert_eq!(parse_block(&buf), Err(ParseError::FormatMismatch));
}

#[test]
fn container_child_failure_aborts() {
    let buf = rec(b"STRM", 0x00, 8, 1, &[0xff; 8], &[]);
    assert_eq!(parse_block(&buf), Err(ParseError::UnknownBlockType));
}

#[test]
fn container_empty_sub_buffer_fails() {
    // A nested length of zero leaves the sequence decoder an empty buffer,
    // and a sequence holds at least one record.
    let buf = rec(b"DEVC", 0x00, 0, 0, &[], &[]);
    assert_eq!(parse_block(&buf), Err(ParseError::InsufficientData));
}

#[test]
fn container_short_sub_buffer_fails() {
    // Nested length 10: one 8-byte child, then 2 leftover bytes that are
    // too short for another header.
    let mut sub = rec(b"MSKP", b's', 2, 0, &[], &[]);
    sub.extend_from_slice(&[0, 0]);
    let buf = rec(b"DEVC", 0x00, 10, 1, &sub, &[]);
    assert_eq!(parse_block(&buf), Err(ParseError::InsufficientData));
}

#[test]
fn sequence_of_two_records() {
    let mut buf = rec(b"TSMP", b'L', 4, 1, &[0, 0, 0, 7], &[]);
    buf.extend_from_slice(&rec(b"GPSF", b'L', 4, 1, &[0, 0, 0, 2], &[]));
    assert_eq!(
        parser(&buf),
        Ok((vec![Block::TotalSamples(7), Block::GPSF(2)], 24))
    );
}

#[test]
fn sequence_empty_input_fails() {
    assert_eq!(parser(&[]), Err(ParseError::InsufficientData));
}

#[test]
fn sequence_failure_returns_no_partial_output() {
    let mut buf = rec(b"TSMP", b'L', 4, 1, &[0, 0, 0, 7], &[]);
    buf.extend_from_slice(b"TSMP");
    assert_eq!(parser(&buf), Err(ParseError::InsufficientData));
}

#[test]
fn sequence_consumes_whole_buffer() {
    let mut buf = rec(b"LRVO", b'b', 1, 1, &[3], &[0, 0, 0]);
    buf.extend_from_slice(&rec(b"LRVS", b'b', 1, 1, &[4], &[0, 0, 0]));
    let (blocks, consumed) = parser(&buf).unwrap();
    assert_eq!(consumed, buf.len());
    assert_eq!(blocks, vec![Block::LRVO(3), Block::LRVS(4)]);
}

#[test]
fn decoding_is_deterministic() {
    let buf = rec(b"ACCL", b's', 6, 1, &[0, 1, 0, 2, 0, 3], &[0, 0]);
    assert_eq!(parse_block(&buf), parse_block(&buf));
    assert_eq!(parser(&buf), parser(&buf));
}

#[test]
fn padding_content_never_matters() {
    // Two records that differ only in the padding byte decode identically.
    let a = rec(b"ABCD", b'?', 1, 3, &[9, 8, 7], &[0x00]);
    let b = rec(b"ABCD", b'?', 1, 3, &[9, 8, 7], &[0xff]);
    assert_eq!(parse_block(&a), parse_block(&b));
}

#[test]
fn padding_advance_formula() {
    // Payload length 5 advances past ((5 + 3) / 4) * 4 - 5 == 3 padding
    // bytes: 8 + 5 + 3 bytes in all.
    let buf = rec(b"DVNM", b'c', 5, 1, b"Hero5", &[1, 2, 3]);
    let (_, consumed) = parse_block(&buf).unwrap();
    assert_eq!(consumed, 8 + 5 + 3);
    // Payload length 12 is already a multiple of 4: zero padding bytes.
    let buf = rec(b"ACCL", b's', 6, 2, &[0; 12], &[]);
    let (_, consumed) = parse_block(&buf).unwrap();
    assert_eq!(consumed, 8 + 12);
}

#[test]
fn unit_string_correction_on_final_byte_only() {
    // Only the trailing byte is substituted: an interior byte with the raw
    // suffix value would simply make the text invalid, and a trailing one
    // becomes the ASCII digit 2.
    let buf = rec(b"SIUN", b'c', 3, 1, &[b'm', 0xb2], &[0, 0]);
    assert_eq!(parse_block(&buf), Ok((Block::UnitsSI("m2".to_string()), 12)));
    let interior = rec(b"SIUN", b'c', 3, 1, &[0xb2, b'm'], &[0, 0]);
    assert_eq!(parse_block(&interior), Err(ParseError::InvalidText));
}

#[test]
fn header_fields() {
    let buf = rec(b"TSMP", b'L', 4, 1, &[0, 0, 0, 9], &[]);
    let (h, pos) = parse_header(&buf).unwrap();
    assert_eq!(pos, 8);
    assert_eq!(
        h,
        RecordHeader { key: 0x54534d50, tag: b'L', size: 4, count: 1 }
    );
}

#[test]
fn header_too_short() {
    assert_eq!(parse_header(&[1, 2, 3]), Err(ParseError::InsufficientData));
}

#[test]
fn size_count_fields() {
    let buf = [7, 0x01, 0x02];
    assert_eq!(parse_size_count(&buf, 0), Ok(((7, 0x0102), 3)));
    assert_eq!(parse_size_count(&buf, 1), Err(ParseError::InsufficientData));
}

#[test]
fn cursor_reads_values_and_positions() {
    let buf = [0x01, 0x02, 0x03, 0x04, 0xff, 0xfe, 0xfd, 0xfc];
    assert_eq!(read_u8(&buf, 4), Ok((0xff, 5)));
    assert_eq!(read_be_u16(&buf, 0), Ok((0x0102, 2)));
    assert_eq!(read_be_u32(&buf, 0), Ok((0x01020304, 4)));
    assert_eq!(read_be_u64(&buf, 0), Ok((0x01020304fffefdfc, 8)));
    assert_eq!(read_be_i16(&buf, 4), Ok((-2, 6)));
    assert_eq!(read_be_i32(&buf, 4), Ok((-66052, 8)));
    assert_eq!(read_bytes(&buf, 2, 3), Ok((vec![3, 4, 0xff], 5)));
}

#[test]
fn cursor_reads_fail_when_short() {
    let buf = [1, 2, 3];
    assert_eq!(read_u8(&buf, 3), Err(ParseError::InsufficientData));
    assert_eq!(read_be_u16(&buf, 2), Err(ParseError::InsufficientData));
    assert_eq!(read_be_u32(&buf, 0), Err(ParseError::InsufficientData));
    assert_eq!(read_be_u64(&buf, 0), Err(ParseError::InsufficientData));
    assert_eq!(read_bytes(&buf, 2, 2), Err(ParseError::InsufficientData));
}

#[test]
fn top_level_device_tree() {
    // A realistic top-level buffer: one device grouping holding a device
    // name and a stream with a unit string and samples.
    let dvnm = rec(b"DVNM", b'c', 4, 1, b"Hero", &[]);
    let siun = rec(b"SIUN", b'c', 5, 1, &[b'm', b'/', b's', 0xb2], &[]);
    let accl = rec(b"ACCL", b's', 6, 1, &[0, 1, 0, 2, 0, 3], &[0, 0]);
    let mut stream_payload = siun.clone();
    stream_payload.extend_from_slice(&accl);
    let strm = rec(b"STRM", 0x00, stream_payload.len() as u8, 1, &stream_payload, &[]);
    let mut devc_payload = dvnm.clone();
    devc_payload.extend_from_slice(&strm);
    let devc = rec(b"DEVC", 0x00, devc_payload.len() as u8, 1, &devc_payload, &[]);
    let (blocks, consumed) = parser(&devc).unwrap();
    assert_eq!(consumed, devc.len());
    assert_eq!(
        blocks,
        vec![Block::DeviceSource(vec![
            Block::DeviceName("Hero".to_string()),
            Block::Stream(vec![
                Block::UnitsSI("m/s2".to_string()),
                Block::Acceleration(vec![(1, 2, 3)]),
            ]),
        ])]
    );
}
