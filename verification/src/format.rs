//! The mathematical model of the wire format. Each record is
//! `[4-byte type key][1-byte tag][1-byte size][2-byte big-endian count]`
//! followed by `size * count` payload bytes and 0-3 padding bytes up to the
//! next 4-byte boundary. The spec functions here define, byte for byte, what
//! every decoder of the library returns; the executable decoders are proved
//! equal to them.

use vstd::prelude::*;

use crate::block::BlockView;
use crate::cursor::{spec_be_i16, spec_be_i32, spec_be_u16, spec_be_u32, spec_be_u64, spec_round4};
use crate::error::ParseError;
use crate::text::{spec_unit_text_bytes, utf8_decode};

verus! {

// The 4-byte type keys, packed big-endian into one integer.
pub const KEY_DEVC: u32 = 0x44455643;
pub const KEY_DVID: u32 = 0x44564944;
pub const KEY_DVNM: u32 = 0x44564e4d;
pub const KEY_STRM: u32 = 0x5354524d;
pub const KEY_STMP: u32 = 0x53544d50;
pub const KEY_TSMP: u32 = 0x54534d50;
pub const KEY_STNM: u32 = 0x53544e4d;
pub const KEY_ORIN: u32 = 0x4f52494e;
pub const KEY_SIUN: u32 = 0x5349554e;
pub const KEY_UNIT: u32 = 0x554e4954;
pub const KEY_SCAL: u32 = 0x5343414c;
pub const KEY_TMPC: u32 = 0x544d5043;
pub const KEY_ACCL: u32 = 0x4143434c;
pub const KEY_GYRO: u32 = 0x4759524f;
pub const KEY_SHUT: u32 = 0x53485554;
pub const KEY_WBAL: u32 = 0x5742414c;
pub const KEY_WRGB: u32 = 0x57524742;
pub const KEY_ISOE: u32 = 0x49534f45;
pub const KEY_UNIF: u32 = 0x554e4946;
pub const KEY_TYPE: u32 = 0x54595045;
pub const KEY_GPSF: u32 = 0x47505346;
pub const KEY_GPSU: u32 = 0x47505355;
pub const KEY_GPSP: u32 = 0x47505350;
pub const KEY_GPSA: u32 = 0x47505341;
pub const KEY_GPS5: u32 = 0x47505335;
pub const KEY_CORI: u32 = 0x434f5249;
pub const KEY_IORI: u32 = 0x494f5249;
pub const KEY_GRAV: u32 = 0x47524156;
pub const KEY_WNDM: u32 = 0x574e444d;
pub const KEY_MWET: u32 = 0x4d574554;
pub const KEY_AALP: u32 = 0x41414c50;
pub const KEY_MSKP: u32 = 0x4d534b50;
pub const KEY_LRVO: u32 = 0x4c52564f;
pub const KEY_LRVS: u32 = 0x4c525653;
pub const KEY_LSKP: u32 = 0x4c534b50;

// The 1-byte element type tags.
pub const TAG_NESTED: u8 = 0x00;
pub const TAG_INT8: u8 = 0x62;
pub const TAG_UINT8: u8 = 0x42;
pub const TAG_ASCII: u8 = 0x63;
pub const TAG_INT16: u8 = 0x73;
pub const TAG_UINT16: u8 = 0x53;
pub const TAG_INT32: u8 = 0x6c;
pub const TAG_UINT32: u8 = 0x4c;
pub const TAG_UINT64: u8 = 0x4a;
pub const TAG_FLOAT32: u8 = 0x66;
pub const TAG_FOURCC: u8 = 0x46;
pub const TAG_UTC: u8 = 0x55;
pub const TAG_CUSTOM: u8 = 0x3f;

/// The record's type key, the first four bytes packed big-endian.
pub open spec fn spec_key(s: Seq<u8>) -> u32 {
    spec_be_u32(s, 0)
}

/// The record's element type tag.
pub open spec fn spec_tag(s: Seq<u8>) -> u8 {
    s[4]
}

/// The record's element size.
pub open spec fn spec_size(s: Seq<u8>) -> int {
    s[5] as int
}

/// The record's element count.
pub open spec fn spec_count(s: Seq<u8>) -> int {
    spec_be_u16(s, 6) as int
}

/// The declared payload length: element size times element count.
pub open spec fn spec_len_sc(s: Seq<u8>) -> int {
    spec_size(s) * spec_count(s)
}

/// The actual text length of a unit-string record: the stored element size
/// is one byte larger than the text length per element.
pub open spec fn spec_len_unit(s: Seq<u8>) -> int {
    (spec_size(s) - 1) * spec_count(s)
}

broadcast use crate::cursor::lemma_mul_nonneg;

/// `count` signed 16-bit values starting at `base`.
pub open spec fn spec_i16_list(s: Seq<u8>, base: int, count: int) -> Seq<i16> {
    Seq::new(count as nat, |j: int| spec_be_i16(s, base + 2 * j))
}

/// `count` unsigned 16-bit values starting at `base`.
pub open spec fn spec_u16_list(s: Seq<u8>, base: int, count: int) -> Seq<u16> {
    Seq::new(count as nat, |j: int| spec_be_u16(s, base + 2 * j))
}

/// `count` signed 32-bit values starting at `base`.
pub open spec fn spec_i32_list(s: Seq<u8>, base: int, count: int) -> Seq<i32> {
    Seq::new(count as nat, |j: int| spec_be_i32(s, base + 4 * j))
}

/// `count` unsigned 32-bit values starting at `base`.
pub open spec fn spec_u32_list(s: Seq<u8>, base: int, count: int) -> Seq<u32> {
    Seq::new(count as nat, |j: int| spec_be_u32(s, base + 4 * j))
}

/// `count` signed 16-bit triplets starting at `base`, 6 bytes each.
pub open spec fn spec_i16_triples(s: Seq<u8>, base: int, count: int) -> Seq<(i16, i16, i16)> {
    Seq::new(
        count as nat,
        |j: int|
            (
                spec_be_i16(s, base + 6 * j),
                spec_be_i16(s, base + 6 * j + 2),
                spec_be_i16(s, base + 6 * j + 4),
            ),
    )
}

/// `count` signed 16-bit quartets starting at `base`, 8 bytes each.
pub open spec fn spec_i16_quads(s: Seq<u8>, base: int, count: int) -> Seq<(i16, i16, i16, i16)> {
    Seq::new(
        count as nat,
        |j: int|
            (
                spec_be_i16(s, base + 8 * j),
                spec_be_i16(s, base + 8 * j + 2),
                spec_be_i16(s, base + 8 * j + 4),
                spec_be_i16(s, base + 8 * j + 6),
            ),
    )
}

/// `count` unsigned 32-bit triplets starting at `base`, 12 bytes each.
pub open spec fn spec_u32_triples(s: Seq<u8>, base: int, count: int) -> Seq<(u32, u32, u32)> {
    Seq::new(
        count as nat,
        |j: int|
            (
                spec_be_u32(s, base + 12 * j),
                spec_be_u32(s, base + 12 * j + 4),
                spec_be_u32(s, base + 12 * j + 8),
            ),
    )
}

/// `count` byte pairs starting at `base`.
pub open spec fn spec_u8_pairs(s: Seq<u8>, base: int, count: int) -> Seq<(u8, u8)> {
    Seq::new(count as nat, |j: int| (s[base + 2 * j], s[base + 2 * j + 1]))
}

/// `count` byte triples starting at `base`.
pub open spec fn spec_u8_triples(s: Seq<u8>, base: int, count: int) -> Seq<(u8, u8, u8)> {
    Seq::new(count as nat, |j: int| (s[base + 3 * j], s[base + 3 * j + 1], s[base + 3 * j + 2]))
}

/// `count` signed byte pairs starting at `base`.
pub open spec fn spec_i8_pairs(s: Seq<u8>, base: int, count: int) -> Seq<(i8, i8)> {
    Seq::new(count as nat, |j: int| (s[base + 2 * j] as i8, s[base + 2 * j + 1] as i8))
}

/// A device-level grouping record: nested records fill exactly the declared
/// `size * count` bytes; no padding follows the nested buffer.
pub open spec fn spec_parse_devc(s: Seq<u8>) -> Result<(BlockView, int), ParseError>
    decreases s.len(), 0int,
{
    if s.len() < 8 {
        Err(ParseError::InsufficientData)
    } else if spec_tag(s) != TAG_NESTED {
        Err(ParseError::FormatMismatch)
    } else {
        let n = spec_len_sc(s);
        if s.len() < 8 + n {
            Err(ParseError::InsufficientData)
        } else {
            match spec_parser(s.subrange(8, 8 + n)) {
                Err(e) => Err(e),
                Ok((children, c)) => if c == n {
                    Ok((BlockView::DeviceSource(children), 8 + n))
                } else {
                    Err(ParseError::TrailingData)
                },
            }
        }
    }
}

/// A stream-level grouping record, shaped exactly as a device grouping.
pub open spec fn spec_parse_strm(s: Seq<u8>) -> Result<(BlockView, int), ParseError>
    decreases s.len(), 0int,
{
    if s.len() < 8 {
        Err(ParseError::InsufficientData)
    } else if spec_tag(s) != TAG_NESTED {
        Err(ParseError::FormatMismatch)
    } else {
        let n = spec_len_sc(s);
        if s.len() < 8 + n {
            Err(ParseError::InsufficientData)
        } else {
            match spec_parser(s.subrange(8, 8 + n)) {
                Err(e) => Err(e),
                Ok((children, c)) => if c == n {
                    Ok((BlockView::Stream(children), 8 + n))
                } else {
                    Err(ParseError::TrailingData)
                },
            }
        }
    }
}

/// A fixed scalar record: the given tag, size and a count of one, whose
/// payload is interpreted by `value`; consumes `8 + round4(size)` bytes.
pub open spec fn spec_scalar_shape(
    s: Seq<u8>,
    tag: u8,
    size: int,
    value: BlockView,
) -> Result<(BlockView, int), ParseError> {
    if s.len() < 8 {
        Err(ParseError::InsufficientData)
    } else if spec_tag(s) != tag || spec_size(s) != size || spec_count(s) != 1 {
        Err(ParseError::FormatMismatch)
    } else if s.len() < 8 + spec_round4(size) {
        Err(ParseError::InsufficientData)
    } else {
        Ok((value, 8 + spec_round4(size)))
    }
}

pub open spec fn spec_parse_dvid(s: Seq<u8>) -> Result<(BlockView, int), ParseError> {
    spec_scalar_shape(s, TAG_UINT32, 4, BlockView::DeviceID(s.subrange(8, 12)))
}

pub open spec fn spec_parse_stmp(s: Seq<u8>) -> Result<(BlockView, int), ParseError> {
    spec_scalar_shape(s, TAG_UINT64, 8, BlockView::StartTimestamp(spec_be_u64(s, 8)))
}

pub open spec fn spec_parse_tsmp(s: Seq<u8>) -> Result<(BlockView, int), ParseError> {
    spec_scalar_shape(s, TAG_UINT32, 4, BlockView::TotalSamples(spec_be_u32(s, 8)))
}

pub open spec fn spec_parse_tmpc(s: Seq<u8>) -> Result<(BlockView, int), ParseError> {
    spec_scalar_shape(s, TAG_FLOAT32, 4, BlockView::Temperature(spec_be_u32(s, 8)))
}

pub open spec fn spec_parse_gpsf(s: Seq<u8>) -> Result<(BlockView, int), ParseError> {
    spec_scalar_shape(s, TAG_UINT32, 4, BlockView::GPSF(spec_be_u32(s, 8)))
}

pub open spec fn spec_parse_gpsp(s: Seq<u8>) -> Result<(BlockView, int), ParseError> {
    spec_scalar_shape(s, TAG_UINT16, 2, BlockView::GPSP(spec_be_u16(s, 8)))
}

pub open spec fn spec_parse_gpsa(s: Seq<u8>) -> Result<(BlockView, int), ParseError> {
    spec_scalar_shape(s, TAG_FOURCC, 4, BlockView::GPSA(s.subrange(8, 12)))
}

pub open spec fn spec_parse_lrvo(s: Seq<u8>) -> Result<(BlockView, int), ParseError> {
    spec_scalar_shape(s, TAG_INT8, 1, BlockView::LRVO(s[8] as i8))
}

pub open spec fn spec_parse_lrvs(s: Seq<u8>) -> Result<(BlockView, int), ParseError> {
    spec_scalar_shape(s, TAG_INT8, 1, BlockView::LRVS(s[8] as i8))
}

/// A text record: a `size * count`-byte UTF-8 payload under the ASCII-like
/// tag `tag`, padded to the next 4-byte boundary. `count_one` demands an
/// element count of one.
pub open spec fn spec_text_shape(
    s: Seq<u8>,
    tag: u8,
    count_one: bool,
) -> Result<(Seq<char>, int), ParseError> {
    if s.len() < 8 {
        Err(ParseError::InsufficientData)
    } else if spec_tag(s) != tag || (count_one && spec_count(s) != 1) {
        Err(ParseError::FormatMismatch)
    } else {
        let l = spec_len_sc(s);
        if s.len() < 8 + l {
            Err(ParseError::InsufficientData)
        } else {
            match utf8_decode(s.subrange(8, 8 + l)) {
                None => Err(ParseError::InvalidText),
                Some(t) => if s.len() < 8 + spec_round4(l) {
                    Err(ParseError::InsufficientData)
                } else {
                    Ok((t, 8 + spec_round4(l)))
                },
            }
        }
    }
}

pub open spec fn spec_parse_dvnm(s: Seq<u8>) -> Result<(BlockView, int), ParseError> {
    match spec_text_shape(s, TAG_ASCII, false) {
        Err(e) => Err(e),
        Ok((t, c)) => Ok((BlockView::DeviceName(t), c)),
    }
}

pub open spec fn spec_parse_stnm(s: Seq<u8>) -> Result<(BlockView, int), ParseError> {
    match spec_text_shape(s, TAG_ASCII, false) {
        Err(e) => Err(e),
        Ok((t, c)) => Ok((BlockView::StreamName(t), c)),
    }
}

pub open spec fn spec_parse_orin(s: Seq<u8>) -> Result<(BlockView, int), ParseError> {
    match spec_text_shape(s, TAG_ASCII, false) {
        Err(e) => Err(e),
        Ok((t, c)) => Ok((BlockView::InputOrientation(t), c)),
    }
}

pub open spec fn spec_parse_type(s: Seq<u8>) -> Result<(BlockView, int), ParseError> {
    match spec_text_shape(s, TAG_ASCII, false) {
        Err(e) => Err(e),
        Ok((t, c)) => Ok((BlockView::Type(t), c)),
    }
}

pub open spec fn spec_parse_gpsu(s: Seq<u8>) -> Result<(BlockView, int), ParseError> {
    match spec_text_shape(s, TAG_UTC, true) {
        Err(e) => Err(e),
        Ok((t, c)) => Ok((BlockView::GPSTimestamp(t), c)),
    }
}

/// A unit-string record. The stored element size is one byte larger than
/// the text length per element, so `(size - 1) * count` bytes are consumed;
/// a trailing squared/inverse suffix byte is corrected before decoding, and
/// padding is taken from the consumed length.
pub open spec fn spec_parse_siun(s: Seq<u8>) -> Result<(BlockView, int), ParseError> {
    if s.len() < 8 {
        Err(ParseError::InsufficientData)
    } else if spec_tag(s) != TAG_ASCII || spec_size(s) < 1 {
        Err(ParseError::FormatMismatch)
    } else {
        let l = spec_len_unit(s);
        if s.len() < 8 + l {
            Err(ParseError::InsufficientData)
        } else {
            match utf8_decode(spec_unit_text_bytes(s.subrange(8, 8 + l))) {
                None => Err(ParseError::InvalidText),
                Some(t) => if s.len() < 8 + spec_round4(l) {
                    Err(ParseError::InsufficientData)
                } else {
                    Ok((BlockView::UnitsSI(t), 8 + spec_round4(l)))
                },
            }
        }
    }
}

/// A scaling-factor record has two shapes, selected by its element type
/// tag: one signed 16-bit divisor, or a list of signed 32-bit divisors.
pub open spec fn spec_parse_scal(s: Seq<u8>) -> Result<(BlockView, int), ParseError> {
    if s.len() < 8 {
        Err(ParseError::InsufficientData)
    } else if spec_tag(s) == TAG_INT16 {
        spec_scalar_shape(s, TAG_INT16, 2, BlockView::ScalingFactorS(spec_be_i16(s, 8)))
    } else if spec_tag(s) == TAG_INT32 {
        if spec_size(s) != 4 {
            Err(ParseError::FormatMismatch)
        } else {
            let l = spec_len_sc(s);
            if s.len() < 8 + spec_round4(l) {
                Err(ParseError::InsufficientData)
            } else {
                Ok((BlockView::ScalingFactorL(spec_i32_list(s, 8, spec_count(s))), 8 + spec_round4(l)))
            }
        }
    } else {
        Err(ParseError::FormatMismatch)
    }
}

/// A fixed-width list record: tag and element size checked, any count, the
/// payload padded to the next 4-byte boundary. The checks shared by every
/// list decoder; the element interpretation stands in each key's own spec.
pub open spec fn spec_list_shape_ok(s: Seq<u8>, tag: u8, size: int) -> Result<int, ParseError> {
    if s.len() < 8 {
        Err(ParseError::InsufficientData)
    } else if spec_tag(s) != tag || spec_size(s) != size {
        Err(ParseError::FormatMismatch)
    } else if s.len() < 8 + spec_round4(spec_len_sc(s)) {
        Err(ParseError::InsufficientData)
    } else {
        Ok(8 + spec_round4(spec_len_sc(s)))
    }
}

pub open spec fn spec_parse_accl(s: Seq<u8>) -> Result<(BlockView, int), ParseError> {
    match spec_list_shape_ok(s, TAG_INT16, 6) {
        Err(e) => Err(e),
        Ok(c) => Ok((BlockView::Acceleration(spec_i16_triples(s, 8, spec_count(s))), c)),
    }
}

pub open spec fn spec_parse_gyro(s: Seq<u8>) -> Result<(BlockView, int), ParseError> {
    match spec_list_shape_ok(s, TAG_INT16, 6) {
        Err(e) => Err(e),
        Ok(c) => Ok((BlockView::Gyroscope(spec_i16_triples(s, 8, spec_count(s))), c)),
    }
}

pub open spec fn spec_parse_grav(s: Seq<u8>) -> Result<(BlockView, int), ParseError> {
    match spec_list_shape_ok(s, TAG_INT16, 6) {
        Err(e) => Err(e),
        Ok(c) => Ok((BlockView::GravityVector(spec_i16_triples(s, 8, spec_count(s))), c)),
    }
}

pub open spec fn spec_parse_cori(s: Seq<u8>) -> Result<(BlockView, int), ParseError> {
    match spec_list_shape_ok(s, TAG_INT16, 8) {
        Err(e) => Err(e),
        Ok(c) => Ok((BlockView::CameraOrientation(spec_i16_quads(s, 8, spec_count(s))), c)),
    }
}

pub open spec fn spec_parse_iori(s: Seq<u8>) -> Result<(BlockView, int), ParseError> {
    match spec_list_shape_ok(s, TAG_INT16, 8) {
        Err(e) => Err(e),
        Ok(c) => Ok((BlockView::ImageOrientation(spec_i16_quads(s, 8, spec_count(s))), c)),
    }
}

pub open spec fn spec_parse_shut(s: Seq<u8>) -> Result<(BlockView, int), ParseError> {
    match spec_list_shape_ok(s, TAG_FLOAT32, 4) {
        Err(e) => Err(e),
        Ok(c) => Ok((BlockView::ShutterSpeed(spec_u32_list(s, 8, spec_count(s))), c)),
    }
}

pub open spec fn spec_parse_unif(s: Seq<u8>) -> Result<(BlockView, int), ParseError> {
    match spec_list_shape_ok(s, TAG_FLOAT32, 4) {
        Err(e) => Err(e),
        Ok(c) => Ok((BlockView::ImageUniformity(spec_u32_list(s, 8, spec_count(s))), c)),
    }
}

pub open spec fn spec_parse_wbal(s: Seq<u8>) -> Result<(BlockView, int), ParseError> {
    match spec_list_shape_ok(s, TAG_UINT16, 2) {
        Err(e) => Err(e),
        Ok(c) => Ok((BlockView::WhiteBalance(spec_u16_list(s, 8, spec_count(s))), c)),
    }
}

pub open spec fn spec_parse_isoe(s: Seq<u8>) -> Result<(BlockView, int), ParseError> {
    match spec_list_shape_ok(s, TAG_UINT16, 2) {
        Err(e) => Err(e),
        Ok(c) => Ok((BlockView::ISO(spec_u16_list(s, 8, spec_count(s))), c)),
    }
}

pub open spec fn spec_parse_wrgb(s: Seq<u8>) -> Result<(BlockView, int), ParseError> {
    match spec_list_shape_ok(s, TAG_FLOAT32, 12) {
        Err(e) => Err(e),
        Ok(c) => Ok((BlockView::WhiteBalanceRGBGains(spec_u32_triples(s, 8, spec_count(s))), c)),
    }
}

pub open spec fn spec_parse_wndm(s: Seq<u8>) -> Result<(BlockView, int), ParseError> {
    match spec_list_shape_ok(s, TAG_UINT8, 2) {
        Err(e) => Err(e),
        Ok(c) => Ok((BlockView::WindProcessing(spec_u8_pairs(s, 8, spec_count(s))), c)),
    }
}

pub open spec fn spec_parse_mwet(s: Seq<u8>) -> Result<(BlockView, int), ParseError> {
    match spec_list_shape_ok(s, TAG_UINT8, 3) {
        Err(e) => Err(e),
        Ok(c) => Ok((BlockView::MicrophoneWet(spec_u8_triples(s, 8, spec_count(s))), c)),
    }
}

pub open spec fn spec_parse_aalp(s: Seq<u8>) -> Result<(BlockView, int), ParseError> {
    match spec_list_shape_ok(s, TAG_INT8, 2) {
        Err(e) => Err(e),
        Ok(c) => Ok((BlockView::AGCAudioLevel(spec_i8_pairs(s, 8, spec_count(s))), c)),
    }
}

pub open spec fn spec_parse_mskp(s: Seq<u8>) -> Result<(BlockView, int), ParseError> {
    match spec_list_shape_ok(s, TAG_INT16, 2) {
        Err(e) => Err(e),
        Ok(c) => Ok((BlockView::MRVFrameSkip(spec_i16_list(s, 8, spec_count(s))), c)),
    }
}

pub open spec fn spec_parse_lskp(s: Seq<u8>) -> Result<(BlockView, int), ParseError> {
    match spec_list_shape_ok(s, TAG_INT16, 2) {
        Err(e) => Err(e),
        Ok(c) => Ok((BlockView::LRVFrameSkip(spec_i16_list(s, 8, spec_count(s))), c)),
    }
}

/// A location-samples record: the raw payload is kept as an opaque byte
/// blob, padded to the next 4-byte boundary.
pub open spec fn spec_parse_gps5(s: Seq<u8>) -> Result<(BlockView, int), ParseError> {
    if s.len() < 8 {
        Err(ParseError::InsufficientData)
    } else if spec_tag(s) != TAG_INT32 {
        Err(ParseError::FormatMismatch)
    } else {
        let l = spec_len_sc(s);
        if s.len() < 8 + l {
            Err(ParseError::InsufficientData)
        } else if s.len() < 8 + spec_round4(l) {
            Err(ParseError::InsufficientData)
        } else {
            Ok((BlockView::GPS5(s.subrange(8, 8 + l)), 8 + spec_round4(l)))
        }
    }
}

/// A record of a type key absent from the decoder table: its tag must be
/// the custom marker, its key bytes become a display label, and its payload
/// is kept as an opaque byte blob, padded to the next 4-byte boundary.
pub open spec fn spec_parse_custom(s: Seq<u8>) -> Result<(BlockView, int), ParseError> {
    if s.len() < 8 {
        Err(ParseError::InsufficientData)
    } else if spec_tag(s) != TAG_CUSTOM {
        Err(ParseError::UnknownBlockType)
    } else {
        match utf8_decode(s.subrange(0, 4)) {
            None => Err(ParseError::InvalidText),
            Some(label) => {
                let l = spec_len_sc(s);
                if s.len() < 8 + l {
                    Err(ParseError::InsufficientData)
                } else if s.len() < 8 + spec_round4(l) {
                    Err(ParseError::InsufficientData)
                } else {
                    Ok((BlockView::Custom(label, s.subrange(8, 8 + l)), 8 + spec_round4(l)))
                }
            },
        }
    }
}

/// One record: an 8-byte header, then the payload decoder selected by the
/// type key, or the fallback decoder for a key without a table entry.
pub open spec fn spec_parse_block(s: Seq<u8>) -> Result<(BlockView, int), ParseError>
    decreases s.len(), 1int,
{
    if s.len() < 8 {
        Err(ParseError::InsufficientData)
    } else {
        let key = spec_key(s);
        if key == KEY_DEVC {
            spec_parse_devc(s)
        } else if key == KEY_STRM {
            spec_parse_strm(s)
        } else if key == KEY_DVID {
            spec_parse_dvid(s)
        } else if key == KEY_DVNM {
            spec_parse_dvnm(s)
        } else if key == KEY_STMP {
            spec_parse_stmp(s)
        } else if key == KEY_TSMP {
            spec_parse_tsmp(s)
        } else if key == KEY_STNM {
            spec_parse_stnm(s)
        } else if key == KEY_ORIN {
            spec_parse_orin(s)
        } else if key == KEY_SIUN {
            spec_parse_siun(s)
        } else if key == KEY_UNIT {
            spec_parse_siun(s)
        } else if key == KEY_SCAL {
            spec_parse_scal(s)
        } else if key == KEY_TMPC {
            spec_parse_tmpc(s)
        } else if key == KEY_ACCL {
            spec_parse_accl(s)
        } else if key == KEY_GYRO {
            spec_parse_gyro(s)
        } else if key == KEY_SHUT {
            spec_parse_shut(s)
        } else if key == KEY_WBAL {
            spec_parse_wbal(s)
        } else if key == KEY_WRGB {
            spec_parse_wrgb(s)
        } else if key == KEY_ISOE {
            spec_parse_isoe(s)
        } else if key == KEY_UNIF {
            spec_parse_unif(s)
        } else if key == KEY_TYPE {
            spec_parse_type(s)
        } else if key == KEY_GPSF {
            spec_parse_gpsf(s)
        } else if key == KEY_GPSU {
            spec_parse_gpsu(s)
        } else if key == KEY_GPSP {
            spec_parse_gpsp(s)
        } else if key == KEY_GPSA {
            spec_parse_gpsa(s)
        } else if key == KEY_GPS5 {
            spec_parse_gps5(s)
        } else if key == KEY_CORI {
            spec_parse_cori(s)
        } else if key == KEY_IORI {
            spec_parse_iori(s)
        } else if key == KEY_GRAV {
            spec_parse_grav(s)
        } else if key == KEY_WNDM {
            spec_parse_wndm(s)
        } else if key == KEY_MWET {
            spec_parse_mwet(s)
        } else if key == KEY_AALP {
            spec_parse_aalp(s)
        } else if key == KEY_MSKP {
            spec_parse_mskp(s)
        } else if key == KEY_LRVO {
            spec_parse_lrvo(s)
        } else if key == KEY_LRVS {
            spec_parse_lrvs(s)
        } else if key == KEY_LSKP {
            spec_parse_lskp(s)
        } else {
            spec_parse_custom(s)
        }
    }
}

/// A record sequence: one record after another, in arrival order, until the
/// buffer is exhausted. Returns the records and the bytes consumed, which
/// on success is the whole buffer. A record decode that consumed nothing or
/// overran the buffer cannot arise (every record consumes at least its
/// 8-byte header and every read is bounds-checked); the final arm keeps the
/// recursion well-founded on that dead path.
pub open spec fn spec_parser(s: Seq<u8>) -> Result<(Seq<BlockView>, int), ParseError>
    decreases s.len(), 2int,
{
    match spec_parse_block(s) {
        Err(e) => Err(e),
        Ok((b, c)) => if c == s.len() {
            Ok((seq![b], c))
        } else if 0 < c < s.len() {
            match spec_parser(s.subrange(c, s.len() as int)) {
                Err(e) => Err(e),
                Ok((rest, rc)) => Ok((seq![b] + rest, c + rc)),
            }
        } else {
            Err(ParseError::InsufficientData)
        },
    }
}

/// The number of payload bytes a record of this header consumes: the
/// declared `size * count`, except for unit strings, where the stored
/// element size is one byte larger than the text length per element.
pub open spec fn spec_payload_len(s: Seq<u8>) -> int {
    if spec_key(s) == KEY_SIUN || spec_key(s) == KEY_UNIT {
        spec_len_unit(s)
    } else {
        spec_len_sc(s)
    }
}

/// Rounding a nonnegative length up to a multiple of 4 equals the closed
/// formula `((n + 3) / 4) * 4`.
pub proof fn lemma_round4_formula(n: int)
    requires
        n >= 0,
    ensures
        spec_round4(n) == ((n + 3) / 4) * 4,
{
    vstd::arithmetic::div_mod::lemma_fundamental_div_mod(n, 4);
    vstd::arithmetic::div_mod::lemma_fundamental_div_mod(n + 3, 4);
}

/// Prepends already-decoded records and already-consumed bytes to the
/// outcome of decoding the rest of a buffer.
pub open spec fn spec_combine(
    prefix: Seq<BlockView>,
    consumed: int,
    r: Result<(Seq<BlockView>, int), ParseError>,
) -> Result<(Seq<BlockView>, int), ParseError> {
    match r {
        Err(e) => Err(e),
        Ok((rest, rc)) => Ok((prefix + rest, consumed + rc)),
    }
}

/// A successfully decoded record consumes at least its 8-byte header and
/// never more than the buffer holds.
pub proof fn lemma_block_consumed_bounds(s: Seq<u8>)
    ensures
        spec_parse_block(s) matches Ok((b, c)) ==> 8 <= c <= s.len(),
{
}

} // verus!
