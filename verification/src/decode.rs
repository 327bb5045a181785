//! The executable decoders, one per known type key, with the header
//! decoder, the fallback decoder, and the record-sequence driver. Every
//! function is proved to return exactly what the corresponding spec
//! function of the format model denotes.

use vstd::prelude::*;

use crate::block::{Block, BlockView, RecordHeader, block_view, blocks_view};
use crate::cursor::{
    be_i16_at, be_i32_at, be_u16_at, be_u32_at, parse_size_count, read_be_u32, read_be_u64,
    read_bytes, read_u8, spec_round4,
};
use crate::error::ParseError;
use crate::format::{
    spec_count, spec_i16_list, spec_i16_quads, spec_i16_triples, spec_i32_list, spec_i8_pairs,
    spec_key, spec_parse_aalp, spec_parse_accl,
    spec_parse_block, spec_parse_cori, spec_parse_custom, spec_parse_devc, spec_parse_dvid,
    spec_parse_dvnm, spec_parse_gps5, spec_parse_gpsa, spec_parse_gpsf, spec_parse_gpsp,
    spec_parse_gpsu, spec_parse_grav, spec_parse_gyro, spec_parse_iori, spec_parse_isoe,
    spec_parse_lrvo, spec_parse_lrvs, spec_parse_lskp, spec_parse_mskp, spec_parse_mwet,
    spec_parse_orin, spec_parse_scal, spec_parse_shut, spec_parse_siun, spec_parse_stmp,
    spec_parse_stnm, spec_parse_strm, spec_parse_tmpc, spec_parse_tsmp, spec_parse_type,
    spec_parse_unif, spec_parse_wbal, spec_parse_wndm, spec_parse_wrgb, spec_parser, spec_size,
    spec_tag, spec_u16_list, spec_u32_list, spec_u32_triples, spec_u8_pairs, spec_u8_triples,
    KEY_AALP, KEY_ACCL, KEY_CORI, KEY_DEVC, KEY_DVID, KEY_DVNM, KEY_GPS5, KEY_GPSA, KEY_GPSF,
    KEY_GPSP, KEY_GPSU, KEY_GRAV, KEY_GYRO, KEY_IORI, KEY_ISOE, KEY_LRVO, KEY_LRVS, KEY_LSKP,
    KEY_MSKP, KEY_MWET, KEY_ORIN, KEY_SCAL, KEY_SHUT, KEY_SIUN, KEY_STMP, KEY_STNM, KEY_STRM,
    KEY_TMPC, KEY_TSMP, KEY_TYPE, KEY_UNIF, KEY_UNIT, KEY_WBAL, KEY_WNDM, KEY_WRGB, TAG_ASCII,
    TAG_CUSTOM, TAG_FLOAT32, TAG_FOURCC, TAG_INT16, TAG_INT32, TAG_INT8, TAG_NESTED, TAG_UINT16,
    TAG_UINT32, TAG_UINT64, TAG_UINT8, TAG_UTC,
};
use crate::text::{string_from_utf8, unit_text_bytes};

verus! {

broadcast use vstd::slice::axiom_spec_len;

/// The executable result of a single-record decode agrees with the model:
/// the same success or failure, the same value under the view, the same
/// number of consumed bytes.
pub open spec fn spec_matches(
    r: Result<(Block, usize), ParseError>,
    m: Result<(BlockView, int), ParseError>,
) -> bool {
    match r {
        Ok((b, c)) => m == Ok::<(BlockView, int), ParseError>((block_view(b), c as int)),
        Err(e) => m == Err::<(BlockView, int), ParseError>(e),
    }
}

/// The executable result of a sequence decode agrees with the model.
pub open spec fn spec_seq_matches(
    r: Result<(Vec<Block>, usize), ParseError>,
    m: Result<(Seq<BlockView>, int), ParseError>,
) -> bool {
    match r {
        Ok((v, c)) => m == Ok::<(Seq<BlockView>, int), ParseError>((blocks_view(v@), c as int)),
        Err(e) => m == Err::<(Seq<BlockView>, int), ParseError>(e),
    }
}

/// The declared payload length of a record: element size times count.
pub fn payload_len(size: u8, count: u16) -> (l: usize)
    ensures
        l == size as int * count as int,
        l <= 0xff * 0xffff,
{
    proof {
        assert(size as int * count as int <= 0xff * 0xffff) by (nonlinear_arith)
            requires
                size as int <= 0xff,
                count as int <= 0xffff,
                size as int >= 0,
                count as int >= 0,
        ;
        assert(size as int * count as int >= 0) by (nonlinear_arith)
            requires
                size as int >= 0,
                count as int >= 0,
        ;
    }
    (size as usize) * (count as usize)
}

/// `l` rounded up to the next multiple of 4.
pub fn round4_up(l: usize) -> (r: usize)
    requires
        l + 3 <= usize::MAX,
    ensures
        r == spec_round4(l as int),
{
    if l % 4 == 0 {
        l
    } else {
        l + (4 - l % 4)
    }
}

/// Reads a record header: the 4-byte type key, the element type tag, and
/// the element size and count. Tag and size validation is deferred to the
/// payload decoder dispatched on the key.
pub fn parse_header(input: &[u8]) -> (r: Result<(RecordHeader, usize), ParseError>)
    ensures
        r is Ok <==> input@.len() >= 8,
        r matches Ok((h, p)) ==> h.key == spec_key(input@) && h.tag == spec_tag(input@)
            && h.size as int == spec_size(input@) && h.count as int == spec_count(input@)
            && p == 8,
        r is Err ==> r == Err::<(RecordHeader, usize), ParseError>(ParseError::InsufficientData),
{
    let (key, pos) = match read_be_u32(input, 0) {
        Ok(x) => x,
        Err(e) => { return Err(e) },
    };
    let (tag, pos) = match read_u8(input, pos) {
        Ok(x) => x,
        Err(e) => { return Err(e) },
    };
    let ((size, count), pos) = match parse_size_count(input, pos) {
        Ok(x) => x,
        Err(e) => { return Err(e) },
    };
    Ok((RecordHeader { key, tag, size: size as u8, count: count as u16 }, pos))
}

fn read_i16_list(input: &[u8], base: usize, count: usize) -> (r: Vec<i16>)
    requires
        base + 2 * count <= input@.len(),
    ensures
        r@ == spec_i16_list(input@, base as int, count as int),
{
    proof {
        vstd::slice::axiom_spec_len::<u8>(input);
    }
    let mut v: Vec<i16> = Vec::new();
    let mut j: usize = 0;
    while j < count
        invariant
            base + 2 * count <= input@.len(),
            base + 2 * count <= usize::MAX,
            j <= count,
            v@.len() == j,
            forall|k: int| 0 <= k < j ==> v@[k] == crate::cursor::spec_be_i16(input@, base + 2 * k),
        decreases count - j,
    {
        v.push(be_i16_at(input, base + 2 * j));
        j += 1;
    }
    assert(v@ =~= spec_i16_list(input@, base as int, count as int));
    v
}

fn read_u16_list(input: &[u8], base: usize, count: usize) -> (r: Vec<u16>)
    requires
        base + 2 * count <= input@.len(),
    ensures
        r@ == spec_u16_list(input@, base as int, count as int),
{
    proof {
        vstd::slice::axiom_spec_len::<u8>(input);
    }
    let mut v: Vec<u16> = Vec::new();
    let mut j: usize = 0;
    while j < count
        invariant
            base + 2 * count <= input@.len(),
            base + 2 * count <= usize::MAX,
            j <= count,
            v@.len() == j,
            forall|k: int| 0 <= k < j ==> v@[k] == crate::cursor::spec_be_u16(input@, base + 2 * k),
        decreases count - j,
    {
        v.push(be_u16_at(input, base + 2 * j));
        j += 1;
    }
    assert(v@ =~= spec_u16_list(input@, base as int, count as int));
    v
}

fn read_i32_list(input: &[u8], base: usize, count: usize) -> (r: Vec<i32>)
    requires
        base + 4 * count <= input@.len(),
    ensures
        r@ == spec_i32_list(input@, base as int, count as int),
{
    proof {
        vstd::slice::axiom_spec_len::<u8>(input);
    }
    let mut v: Vec<i32> = Vec::new();
    let mut j: usize = 0;
    while j < count
        invariant
            base + 4 * count <= input@.len(),
            base + 4 * count <= usize::MAX,
            j <= count,
            v@.len() == j,
            forall|k: int| 0 <= k < j ==> v@[k] == crate::cursor::spec_be_i32(input@, base + 4 * k),
        decreases count - j,
    {
        v.push(be_i32_at(input, base + 4 * j));
        j += 1;
    }
    assert(v@ =~= spec_i32_list(input@, base as int, count as int));
    v
}

fn read_u32_list(input: &[u8], base: usize, count: usize) -> (r: Vec<u32>)
    requires
        base + 4 * count <= input@.len(),
    ensures
        r@ == spec_u32_list(input@, base as int, count as int),
{
    proof {
        vstd::slice::axiom_spec_len::<u8>(input);
    }
    let mut v: Vec<u32> = Vec::new();
    let mut j: usize = 0;
    while j < count
        invariant
            base + 4 * count <= input@.len(),
            base + 4 * count <= usize::MAX,
            j <= count,
            v@.len() == j,
            forall|k: int| 0 <= k < j ==> v@[k] == crate::cursor::spec_be_u32(input@, base + 4 * k),
        decreases count - j,
    {
        v.push(be_u32_at(input, base + 4 * j));
        j += 1;
    }
    assert(v@ =~= spec_u32_list(input@, base as int, count as int));
    v
}

fn read_i16_triples(input: &[u8], base: usize, count: usize) -> (r: Vec<(i16, i16, i16)>)
    requires
        base + 6 * count <= input@.len(),
    ensures
        r@ == spec_i16_triples(input@, base as int, count as int),
{
    proof {
        vstd::slice::axiom_spec_len::<u8>(input);
    }
    let mut v: Vec<(i16, i16, i16)> = Vec::new();
    let mut j: usize = 0;
    while j < count
        invariant
            base + 6 * count <= input@.len(),
            base + 6 * count <= usize::MAX,
            j <= count,
            v@.len() == j,
            forall|k: int| 0 <= k < j ==> v@[k] == (
                crate::cursor::spec_be_i16(input@, base + 6 * k),
                crate::cursor::spec_be_i16(input@, base + 6 * k + 2),
                crate::cursor::spec_be_i16(input@, base + 6 * k + 4),
            ),
        decreases count - j,
    {
        let d1 = be_i16_at(input, base + 6 * j);
        let d2 = be_i16_at(input, base + 6 * j + 2);
        let d3 = be_i16_at(input, base + 6 * j + 4);
        v.push((d1, d2, d3));
        j += 1;
    }
    assert(v@ =~= spec_i16_triples(input@, base as int, count as int));
    v
}

fn read_i16_quads(input: &[u8], base: usize, count: usize) -> (r: Vec<(i16, i16, i16, i16)>)
    requires
        base + 8 * count <= input@.len(),
    ensures
        r@ == spec_i16_quads(input@, base as int, count as int),
{
    proof {
        vstd::slice::axiom_spec_len::<u8>(input);
    }
    let mut v: Vec<(i16, i16, i16, i16)> = Vec::new();
    let mut j: usize = 0;
    while j < count
        invariant
            base + 8 * count <= input@.len(),
            base + 8 * count <= usize::MAX,
            j <= count,
            v@.len() == j,
            forall|k: int| 0 <= k < j ==> v@[k] == (
                crate::cursor::spec_be_i16(input@, base + 8 * k),
                crate::cursor::spec_be_i16(input@, base + 8 * k + 2),
                crate::cursor::spec_be_i16(input@, base + 8 * k + 4),
                crate::cursor::spec_be_i16(input@, base + 8 * k + 6),
            ),
        decreases count - j,
    {
        let d1 = be_i16_at(input, base + 8 * j);
        let d2 = be_i16_at(input, base + 8 * j + 2);
        let d3 = be_i16_at(input, base + 8 * j + 4);
        let d4 = be_i16_at(input, base + 8 * j + 6);
        v.push((d1, d2, d3, d4));
        j += 1;
    }
    assert(v@ =~= spec_i16_quads(input@, base as int, count as int));
    v
}

fn read_u32_triples(input: &[u8], base: usize, count: usize) -> (r: Vec<(u32, u32, u32)>)
    requires
        base + 12 * count <= input@.len(),
    ensures
        r@ == spec_u32_triples(input@, base as int, count as int),
{
    proof {
        vstd::slice::axiom_spec_len::<u8>(input);
    }
    let mut v: Vec<(u32, u32, u32)> = Vec::new();
    let mut j: usize = 0;
    while j < count
        invariant
            base + 12 * count <= input@.len(),
            base + 12 * count <= usize::MAX,
            j <= count,
            v@.len() == j,
            forall|k: int| 0 <= k < j ==> v@[k] == (
                crate::cursor::spec_be_u32(input@, base + 12 * k),
                crate::cursor::spec_be_u32(input@, base + 12 * k + 4),
                crate::cursor::spec_be_u32(input@, base + 12 * k + 8),
            ),
        decreases count - j,
    {
        let d1 = be_u32_at(input, base + 12 * j);
        let d2 = be_u32_at(input, base + 12 * j + 4);
        let d3 = be_u32_at(input, base + 12 * j + 8);
        v.push((d1, d2, d3));
        j += 1;
    }
    assert(v@ =~= spec_u32_triples(input@, base as int, count as int));
    v
}

fn read_u8_pairs(input: &[u8], base: usize, count: usize) -> (r: Vec<(u8, u8)>)
    requires
        base + 2 * count <= input@.len(),
    ensures
        r@ == spec_u8_pairs(input@, base as int, count as int),
{
    proof {
        vstd::slice::axiom_spec_len::<u8>(input);
    }
    let mut v: Vec<(u8, u8)> = Vec::new();
    let mut j: usize = 0;
    while j < count
        invariant
            base + 2 * count <= input@.len(),
            base + 2 * count <= usize::MAX,
            j <= count,
            v@.len() == j,
            forall|k: int| 0 <= k < j ==> v@[k] == (input@[base + 2 * k], input@[base + 2 * k + 1]),
        decreases count - j,
    {
        v.push((input[base + 2 * j], input[base + 2 * j + 1]));
        j += 1;
    }
    assert(v@ =~= spec_u8_pairs(input@, base as int, count as int));
    v
}

fn read_u8_triples(input: &[u8], base: usize, count: usize) -> (r: Vec<(u8, u8, u8)>)
    requires
        base + 3 * count <= input@.len(),
    ensures
        r@ == spec_u8_triples(input@, base as int, count as int),
{
    proof {
        vstd::slice::axiom_spec_len::<u8>(input);
    }
    let mut v: Vec<(u8, u8, u8)> = Vec::new();
    let mut j: usize = 0;
    while j < count
        invariant
            base + 3 * count <= input@.len(),
            base + 3 * count <= usize::MAX,
            j <= count,
            v@.len() == j,
            forall|k: int| 0 <= k < j ==> v@[k] == (
                input@[base + 3 * k],
                input@[base + 3 * k + 1],
                input@[base + 3 * k + 2],
            ),
        decreases count - j,
    {
        v.push((input[base + 3 * j], input[base + 3 * j + 1], input[base + 3 * j + 2]));
        j += 1;
    }
    assert(v@ =~= spec_u8_triples(input@, base as int, count as int));
    v
}

fn read_i8_pairs(input: &[u8], base: usize, count: usize) -> (r: Vec<(i8, i8)>)
    requires
        base + 2 * count <= input@.len(),
    ensures
        r@ == spec_i8_pairs(input@, base as int, count as int),
{
    proof {
        vstd::slice::axiom_spec_len::<u8>(input);
    }
    let mut v: Vec<(i8, i8)> = Vec::new();
    let mut j: usize = 0;
    while j < count
        invariant
            base + 2 * count <= input@.len(),
            base + 2 * count <= usize::MAX,
            j <= count,
            v@.len() == j,
            forall|k: int| 0 <= k < j ==> v@[k] == (
                input@[base + 2 * k] as i8,
                input@[base + 2 * k + 1] as i8,
            ),
        decreases count - j,
    {
        v.push((input[base + 2 * j] as i8, input[base + 2 * j + 1] as i8));
        j += 1;
    }
    assert(v@ =~= spec_i8_pairs(input@, base as int, count as int));
    v
}

/// Decodes a device-level grouping record: its payload is a complete
/// nested record sequence filling exactly the declared length.
pub fn parse_devc(input: &[u8]) -> (r: Result<(Block, usize), ParseError>)
    ensures
        spec_matches(r, spec_parse_devc(input@)),
    decreases input@.len(), 0int,
{
    let (h, _pos) = match parse_header(input) {
        Ok(x) => x,
        Err(e) => { return Err(e) },
    };
    if h.tag != TAG_NESTED {
        return Err(ParseError::FormatMismatch);
    }
    let n = payload_len(h.size, h.count);
    if input.len() - 8 < n {
        return Err(ParseError::InsufficientData);
    }
    let sub = vstd::slice::slice_subrange(input, 8, 8 + n);
    match parser(sub) {
        Err(e) => Err(e),
        Ok((children, c)) => {
            if c != n {
                Err(ParseError::TrailingData)
            } else {
                proof {
                    crate::block::lemma_view_device_source(children);
                }
                Ok((Block::DeviceSource(children), 8 + n))
            }
        },
    }
}

/// Decodes a stream-level grouping record, shaped as a device grouping.
pub fn parse_strm(input: &[u8]) -> (r: Result<(Block, usize), ParseError>)
    ensures
        spec_matches(r, spec_parse_strm(input@)),
    decreases input@.len(), 0int,
{
    let (h, _pos) = match parse_header(input) {
        Ok(x) => x,
        Err(e) => { return Err(e) },
    };
    if h.tag != TAG_NESTED {
        return Err(ParseError::FormatMismatch);
    }
    let n = payload_len(h.size, h.count);
    if input.len() - 8 < n {
        return Err(ParseError::InsufficientData);
    }
    let sub = vstd::slice::slice_subrange(input, 8, 8 + n);
    match parser(sub) {
        Err(e) => Err(e),
        Ok((children, c)) => {
            if c != n {
                Err(ParseError::TrailingData)
            } else {
                proof {
                    crate::block::lemma_view_stream(children);
                }
                Ok((Block::Stream(children), 8 + n))
            }
        },
    }
}

/// Decodes a device-identifier record: one 4-byte code.
pub fn parse_dvid(input: &[u8]) -> (r: Result<(Block, usize), ParseError>)
    ensures
        spec_matches(r, spec_parse_dvid(input@)),
{
    let (h, _pos) = match parse_header(input) {
        Ok(x) => x,
        Err(e) => { return Err(e) },
    };
    if h.tag != TAG_UINT32 || h.size != 4 || h.count != 1 {
        return Err(ParseError::FormatMismatch);
    }
    if input.len() < 12 {
        return Err(ParseError::InsufficientData);
    }
    let a: [u8; 4] = [input[8], input[9], input[10], input[11]];
    proof {
        assert(a@ =~= input@.subrange(8, 12));
    }
    Ok((Block::DeviceID(a), 12))
}

/// Decodes a device-name record: a UTF-8 text payload.
pub fn parse_dvnm(input: &[u8]) -> (r: Result<(Block, usize), ParseError>)
    ensures
        spec_matches(r, spec_parse_dvnm(input@)),
{
    let (h, pos) = match parse_header(input) {
        Ok(x) => x,
        Err(e) => { return Err(e) },
    };
    if h.tag != TAG_ASCII {
        return Err(ParseError::FormatMismatch);
    }
    let l = payload_len(h.size, h.count);
    let (bytes, _p) = match read_bytes(input, pos, l) {
        Ok(x) => x,
        Err(e) => { return Err(e) },
    };
    let t = match string_from_utf8(bytes) {
        Some(t) => t,
        None => { return Err(ParseError::InvalidText) },
    };
    let end = 8 + round4_up(l);
    if input.len() < end {
        return Err(ParseError::InsufficientData);
    }
    Ok((Block::DeviceName(t), end))
}

/// Decodes a stream start-timestamp record: one unsigned 64-bit value.
pub fn parse_stmp(input: &[u8]) -> (r: Result<(Block, usize), ParseError>)
    ensures
        spec_matches(r, spec_parse_stmp(input@)),
{
    let (h, pos) = match parse_header(input) {
        Ok(x) => x,
        Err(e) => { return Err(e) },
    };
    if h.tag != TAG_UINT64 || h.size != 8 || h.count != 1 {
        return Err(ParseError::FormatMismatch);
    }
    let (v, end) = match read_be_u64(input, pos) {
        Ok(x) => x,
        Err(e) => { return Err(e) },
    };
    Ok((Block::StartTimestamp(v), end))
}

/// Decodes a total-sample-count record: one unsigned 32-bit value.
pub fn parse_tsmp(input: &[u8]) -> (r: Result<(Block, usize), ParseError>)
    ensures
        spec_matches(r, spec_parse_tsmp(input@)),
{
    let (h, pos) = match parse_header(input) {
        Ok(x) => x,
        Err(e) => { return Err(e) },
    };
    if h.tag != TAG_UINT32 || h.size != 4 || h.count != 1 {
        return Err(ParseError::FormatMismatch);
    }
    let (v, end) = match read_be_u32(input, pos) {
        Ok(x) => x,
        Err(e) => { return Err(e) },
    };
    Ok((Block::TotalSamples(v), end))
}

/// Decodes a stream-name record: a UTF-8 text payload.
pub fn parse_stnm(input: &[u8]) -> (r: Result<(Block, usize), ParseError>)
    ensures
        spec_matches(r, spec_parse_stnm(input@)),
{
    let (h, pos) = match parse_header(input) {
        Ok(x) => x,
        Err(e) => { return Err(e) },
    };
    if h.tag != TAG_ASCII {
        return Err(ParseError::FormatMismatch);
    }
    let l = payload_len(h.size, h.count);
    let (bytes, _p) = match read_bytes(input, pos, l) {
        Ok(x) => x,
        Err(e) => { return Err(e) },
    };
    let t = match string_from_utf8(bytes) {
        Some(t) => t,
        None => { return Err(ParseError::InvalidText) },
    };
    let end = 8 + round4_up(l);
    if input.len() < end {
        return Err(ParseError::InsufficientData);
    }
    Ok((Block::StreamName(t), end))
}

/// Decodes an input-orientation record: a UTF-8 text payload.
pub fn parse_orin(input: &[u8]) -> (r: Result<(Block, usize), ParseError>)
    ensures
        spec_matches(r, spec_parse_orin(input@)),
{
    let (h, pos) = match parse_header(input) {
        Ok(x) => x,
        Err(e) => { return Err(e) },
    };
    if h.tag != TAG_ASCII {
        return Err(ParseError::FormatMismatch);
    }
    let l = payload_len(h.size, h.count);
    let (bytes, _p) = match read_bytes(input, pos, l) {
        Ok(x) => x,
        Err(e) => { return Err(e) },
    };
    let t = match string_from_utf8(bytes) {
        Some(t) => t,
        None => { return Err(ParseError::InvalidText) },
    };
    let end = 8 + round4_up(l);
    if input.len() < end {
        return Err(ParseError::InsufficientData);
    }
    Ok((Block::InputOrientation(t), end))
}

/// Decodes a unit-string record: the stored element size is one byte
/// larger than the text length per element, and a trailing squared/inverse
/// suffix byte is corrected to the ASCII digit `2` before decoding.
pub fn parse_siun(input: &[u8]) -> (r: Result<(Block, usize), ParseError>)
    ensures
        spec_matches(r, spec_parse_siun(input@)),
{
    let (h, pos) = match parse_header(input) {
        Ok(x) => x,
        Err(e) => { return Err(e) },
    };
    if h.tag != TAG_ASCII || h.size < 1 {
        return Err(ParseError::FormatMismatch);
    }
    let l = payload_len(h.size - 1, h.count);
    let (raw, _p) = match read_bytes(input, pos, l) {
        Ok(x) => x,
        Err(e) => { return Err(e) },
    };
    let fixed = unit_text_bytes(raw);
    let t = match string_from_utf8(fixed) {
        Some(t) => t,
        None => { return Err(ParseError::InvalidText) },
    };
    let end = 8 + round4_up(l);
    if input.len() < end {
        return Err(ParseError::InsufficientData);
    }
    Ok((Block::UnitsSI(t), end))
}

/// Decodes a scaling-factor record, branching on its element type tag: one
/// signed 16-bit divisor, or a list of signed 32-bit divisors.
pub fn parse_scal(input: &[u8]) -> (r: Result<(Block, usize), ParseError>)
    ensures
        spec_matches(r, spec_parse_scal(input@)),
{
    let (h, pos) = match parse_header(input) {
        Ok(x) => x,
        Err(e) => { return Err(e) },
    };
    if h.tag == TAG_INT16 {
        if h.size != 2 || h.count != 1 {
            return Err(ParseError::FormatMismatch);
        }
        if input.len() < 12 {
            return Err(ParseError::InsufficientData);
        }
        Ok((Block::ScalingFactorS(be_i16_at(input, 8)), 12))
    } else if h.tag == TAG_INT32 {
        if h.size != 4 {
            return Err(ParseError::FormatMismatch);
        }
        let l = payload_len(h.size, h.count);
        let end = 8 + round4_up(l);
        if input.len() < end {
            return Err(ParseError::InsufficientData);
        }
        let v = read_i32_list(input, pos, h.count as usize);
        Ok((Block::ScalingFactorL(v), end))
    } else {
        Err(ParseError::FormatMismatch)
    }
}

/// Decodes a temperature record: one 32-bit float, kept as raw bits.
pub fn parse_tmpc(input: &[u8]) -> (r: Result<(Block, usize), ParseError>)
    ensures
        spec_matches(r, spec_parse_tmpc(input@)),
{
    let (h, pos) = match parse_header(input) {
        Ok(x) => x,
        Err(e) => { return Err(e) },
    };
    if h.tag != TAG_FLOAT32 || h.size != 4 || h.count != 1 {
        return Err(ParseError::FormatMismatch);
    }
    let (v, end) = match read_be_u32(input, pos) {
        Ok(x) => x,
        Err(e) => { return Err(e) },
    };
    Ok((Block::Temperature(v), end))
}

/// Decodes an acceleration record: signed 16-bit triplets.
pub fn parse_accl(input: &[u8]) -> (r: Result<(Block, usize), ParseError>)
    ensures
        spec_matches(r, spec_parse_accl(input@)),
{
    let (h, pos) = match parse_header(input) {
        Ok(x) => x,
        Err(e) => { return Err(e) },
    };
    if h.tag != TAG_INT16 || h.size != 6 {
        return Err(ParseError::FormatMismatch);
    }
    let l = payload_len(h.size, h.count);
    let end = 8 + round4_up(l);
    if input.len() < end {
        return Err(ParseError::InsufficientData);
    }
    let v = read_i16_triples(input, pos, h.count as usize);
    Ok((Block::Acceleration(v), end))
}

/// Decodes a gyroscope record: signed 16-bit triplets.
pub fn parse_gyro(input: &[u8]) -> (r: Result<(Block, usize), ParseError>)
    ensures
        spec_matches(r, spec_parse_gyro(input@)),
{
    let (h, pos) = match parse_header(input) {
        Ok(x) => x,
        Err(e) => { return Err(e) },
    };
    if h.tag != TAG_INT16 || h.size != 6 {
        return Err(ParseError::FormatMismatch);
    }
    let l = payload_len(h.size, h.count);
    let end = 8 + round4_up(l);
    if input.len() < end {
        return Err(ParseError::InsufficientData);
    }
    let v = read_i16_triples(input, pos, h.count as usize);
    Ok((Block::Gyroscope(v), end))
}

/// Decodes a shutter-speed record: 32-bit floats, kept as raw bits.
pub fn parse_shut(input: &[u8]) -> (r: Result<(Block, usize), ParseError>)
    ensures
        spec_matches(r, spec_parse_shut(input@)),
{
    let (h, pos) = match parse_header(input) {
        Ok(x) => x,
        Err(e) => { return Err(e) },
    };
    if h.tag != TAG_FLOAT32 || h.size != 4 {
        return Err(ParseError::FormatMismatch);
    }
    let l = payload_len(h.size, h.count);
    let end = 8 + round4_up(l);
    if input.len() < end {
        return Err(ParseError::InsufficientData);
    }
    let v = read_u32_list(input, pos, h.count as usize);
    Ok((Block::ShutterSpeed(v), end))
}

/// Decodes a white-balance record: unsigned 16-bit color temperatures.
pub fn parse_wbal(input: &[u8]) -> (r: Result<(Block, usize), ParseError>)
    ensures
        spec_matches(r, spec_parse_wbal(input@)),
{
    let (h, pos) = match parse_header(input) {
        Ok(x) => x,
        Err(e) => { return Err(e) },
    };
    if h.tag != TAG_UINT16 || h.size != 2 {
        return Err(ParseError::FormatMismatch);
    }
    let l = payload_len(h.size, h.count);
    let end = 8 + round4_up(l);
    if input.len() < end {
        return Err(ParseError::InsufficientData);
    }
    let v = read_u16_list(input, pos, h.count as usize);
    Ok((Block::WhiteBalance(v), end))
}

/// Decodes a white-balance gains record: float triplets, kept as raw bits.
pub fn parse_wrgb(input: &[u8]) -> (r: Result<(Block, usize), ParseError>)
    ensures
        spec_matches(r, spec_parse_wrgb(input@)),
{
    let (h, pos) = match parse_header(input) {
        Ok(x) => x,
        Err(e) => { return Err(e) },
    };
    if h.tag != TAG_FLOAT32 || h.size != 12 {
        return Err(ParseError::FormatMismatch);
    }
    let l = payload_len(h.size, h.count);
    let end = 8 + round4_up(l);
    if input.len() < end {
        return Err(ParseError::InsufficientData);
    }
    let v = read_u32_triples(input, pos, h.count as usize);
    Ok((Block::WhiteBalanceRGBGains(v), end))
}

/// Decodes a sensor-sensitivity record: unsigned 16-bit values.
pub fn parse_isoe(input: &[u8]) -> (r: Result<(Block, usize), ParseError>)
    ensures
        spec_matches(r, spec_parse_isoe(input@)),
{
    let (h, pos) = match parse_header(input) {
        Ok(x) => x,
        Err(e) => { return Err(e) },
    };
    if h.tag != TAG_UINT16 || h.size != 2 {
        return Err(ParseError::FormatMismatch);
    }
    let l = payload_len(h.size, h.count);
    let end = 8 + round4_up(l);
    if input.len() < end {
        return Err(ParseError::InsufficientData);
    }
    let v = read_u16_list(input, pos, h.count as usize);
    Ok((Block::ISO(v), end))
}

/// Decodes an image-uniformity record: 32-bit floats, kept as raw bits.
pub fn parse_unif(input: &[u8]) -> (r: Result<(Block, usize), ParseError>)
    ensures
        spec_matches(r, spec_parse_unif(input@)),
{
    let (h, pos) = match parse_header(input) {
        Ok(x) => x,
        Err(e) => { return Err(e) },
    };
    if h.tag != TAG_FLOAT32 || h.size != 4 {
        return Err(ParseError::FormatMismatch);
    }
    let l = payload_len(h.size, h.count);
    let end = 8 + round4_up(l);
    if input.len() < end {
        return Err(ParseError::InsufficientData);
    }
    let v = read_u32_list(input, pos, h.count as usize);
    Ok((Block::ImageUniformity(v), end))
}

/// Decodes a free-form type-label record: a UTF-8 text payload.
pub fn parse_type(input: &[u8]) -> (r: Result<(Block, usize), ParseError>)
    ensures
        spec_matches(r, spec_parse_type(input@)),
{
    let (h, pos) = match parse_header(input) {
        Ok(x) => x,
        Err(e) => { return Err(e) },
    };
    if h.tag != TAG_ASCII {
        return Err(ParseError::FormatMismatch);
    }
    let l = payload_len(h.size, h.count);
    let (bytes, _p) = match read_bytes(input, pos, l) {
        Ok(x) => x,
        Err(e) => { return Err(e) },
    };
    let t = match string_from_utf8(bytes) {
        Some(t) => t,
        None => { return Err(ParseError::InvalidText) },
    };
    let end = 8 + round4_up(l);
    if input.len() < end {
        return Err(ParseError::InsufficientData);
    }
    Ok((Block::Type(t), end))
}

/// Decodes a record whose type key has no table entry: its tag must be the
/// custom marker, the key bytes become a display label, and the payload is
/// kept as an opaque blob.
pub fn parse_custom(input: &[u8]) -> (r: Result<(Block, usize), ParseError>)
    ensures
        spec_matches(r, spec_parse_custom(input@)),
{
    let (h, pos) = match parse_header(input) {
        Ok(x) => x,
        Err(e) => { return Err(e) },
    };
    if h.tag != TAG_CUSTOM {
        return Err(ParseError::UnknownBlockType);
    }
    let (label_bytes, _lp) = match read_bytes(input, 0, 4) {
        Ok(x) => x,
        Err(e) => { return Err(e) },
    };
    let label = match string_from_utf8(label_bytes) {
        Some(t) => t,
        None => { return Err(ParseError::InvalidText) },
    };
    let l = payload_len(h.size, h.count);
    let (blob, _bp) = match read_bytes(input, pos, l) {
        Ok(x) => x,
        Err(e) => { return Err(e) },
    };
    let end = 8 + round4_up(l);
    if input.len() < end {
        return Err(ParseError::InsufficientData);
    }
    Ok((Block::Custom(label, blob), end))
}

/// Decodes a location-fix record: one unsigned 32-bit value.
pub fn parse_gpsf(input: &[u8]) -> (r: Result<(Block, usize), ParseError>)
    ensures
        spec_matches(r, spec_parse_gpsf(input@)),
{
    let (h, pos) = match parse_header(input) {
        Ok(x) => x,
        Err(e) => { return Err(e) },
    };
    if h.tag != TAG_UINT32 || h.size != 4 || h.count != 1 {
        return Err(ParseError::FormatMismatch);
    }
    let (v, end) = match read_be_u32(input, pos) {
        Ok(x) => x,
        Err(e) => { return Err(e) },
    };
    Ok((Block::GPSF(v), end))
}

/// Decodes a location-timestamp record: a UTF-8 text payload of count one.
pub fn parse_gpsu(input: &[u8]) -> (r: Result<(Block, usize), ParseError>)
    ensures
        spec_matches(r, spec_parse_gpsu(input@)),
{
    let (h, pos) = match parse_header(input) {
        Ok(x) => x,
        Err(e) => { return Err(e) },
    };
    if h.tag != TAG_UTC || h.count != 1 {
        return Err(ParseError::FormatMismatch);
    }
    let l = payload_len(h.size, h.count);
    let (bytes, _p) = match read_bytes(input, pos, l) {
        Ok(x) => x,
        Err(e) => { return Err(e) },
    };
    let t = match string_from_utf8(bytes) {
        Some(t) => t,
        None => { return Err(ParseError::InvalidText) },
    };
    let end = 8 + round4_up(l);
    if input.len() < end {
        return Err(ParseError::InsufficientData);
    }
    Ok((Block::GPSTimestamp(t), end))
}

/// Decodes a location-precision record: one unsigned 16-bit value, with
/// two padding bytes skipped unread.
pub fn parse_gpsp(input: &[u8]) -> (r: Result<(Block, usize), ParseError>)
    ensures
        spec_matches(r, spec_parse_gpsp(input@)),
{
    let (h, _pos) = match parse_header(input) {
        Ok(x) => x,
        Err(e) => { return Err(e) },
    };
    if h.tag != TAG_UINT16 || h.size != 2 || h.count != 1 {
        return Err(ParseError::FormatMismatch);
    }
    if input.len() < 12 {
        return Err(ParseError::InsufficientData);
    }
    Ok((Block::GPSP(be_u16_at(input, 8)), 12))
}

/// Decodes a location-accuracy record: one 4-byte code.
pub fn parse_gpsa(input: &[u8]) -> (r: Result<(Block, usize), ParseError>)
    ensures
        spec_matches(r, spec_parse_gpsa(input@)),
{
    let (h, _pos) = match parse_header(input) {
        Ok(x) => x,
        Err(e) => { return Err(e) },
    };
    if h.tag != TAG_FOURCC || h.size != 4 || h.count != 1 {
        return Err(ParseError::FormatMismatch);
    }
    if input.len() < 12 {
        return Err(ParseError::InsufficientData);
    }
    let a: [u8; 4] = [input[8], input[9], input[10], input[11]];
    proof {
        assert(a@ =~= input@.subrange(8, 12));
    }
    Ok((Block::GPSA(a), 12))
}

/// Decodes a location-samples record: the raw payload kept as bytes.
pub fn parse_gps5(input: &[u8]) -> (r: Result<(Block, usize), ParseError>)
    ensures
        spec_matches(r, spec_parse_gps5(input@)),
{
    let (h, pos) = match parse_header(input) {
        Ok(x) => x,
        Err(e) => { return Err(e) },
    };
    if h.tag != TAG_INT32 {
        return Err(ParseError::FormatMismatch);
    }
    let l = payload_len(h.size, h.count);
    let (blob, _p) = match read_bytes(input, pos, l) {
        Ok(x) => x,
        Err(e) => { return Err(e) },
    };
    let end = 8 + round4_up(l);
    if input.len() < end {
        return Err(ParseError::InsufficientData);
    }
    Ok((Block::GPS5(blob), end))
}

/// Decodes a camera-orientation record: signed 16-bit quartets.
pub fn parse_cori(input: &[u8]) -> (r: Result<(Block, usize), ParseError>)
    ensures
        spec_matches(r, spec_parse_cori(input@)),
{
    let (h, pos) = match parse_header(input) {
        Ok(x) => x,
        Err(e) => { return Err(e) },
    };
    if h.tag != TAG_INT16 || h.size != 8 {
        return Err(ParseError::FormatMismatch);
    }
    let l = payload_len(h.size, h.count);
    let end = 8 + round4_up(l);
    if input.len() < end {
        return Err(ParseError::InsufficientData);
    }
    let v = read_i16_quads(input, pos, h.count as usize);
    Ok((Block::CameraOrientation(v), end))
}

/// Decodes an image-orientation record: signed 16-bit quartets.
pub fn parse_iori(input: &[u8]) -> (r: Result<(Block, usize), ParseError>)
    ensures
        spec_matches(r, spec_parse_iori(input@)),
{
    let (h, pos) = match parse_header(input) {
        Ok(x) => x,
        Err(e) => { return Err(e) },
    };
    if h.tag != TAG_INT16 || h.size != 8 {
        return Err(ParseError::FormatMismatch);
    }
    let l = payload_len(h.size, h.count);
    let end = 8 + round4_up(l);
    if input.len() < end {
        return Err(ParseError::InsufficientData);
    }
    let v = read_i16_quads(input, pos, h.count as usize);
    Ok((Block::ImageOrientation(v), end))
}

/// Decodes a gravity-vector record: signed 16-bit triplets.
pub fn parse_grav(input: &[u8]) -> (r: Result<(Block, usize), ParseError>)
    ensures
        spec_matches(r, spec_parse_grav(input@)),
{
    let (h, pos) = match parse_header(input) {
        Ok(x) => x,
        Err(e) => { return Err(e) },
    };
    if h.tag != TAG_INT16 || h.size != 6 {
        return Err(ParseError::FormatMismatch);
    }
    let l = payload_len(h.size, h.count);
    let end = 8 + round4_up(l);
    if input.len() < end {
        return Err(ParseError::InsufficientData);
    }
    let v = read_i16_triples(input, pos, h.count as usize);
    Ok((Block::GravityVector(v), end))
}

/// Decodes a wind-processing record: byte pairs of enable and meter value.
pub fn parse_wndm(input: &[u8]) -> (r: Result<(Block, usize), ParseError>)
    ensures
        spec_matches(r, spec_parse_wndm(input@)),
{
    let (h, pos) = match parse_header(input) {
        Ok(x) => x,
        Err(e) => { return Err(e) },
    };
    if h.tag != TAG_UINT8 || h.size != 2 {
        return Err(ParseError::FormatMismatch);
    }
    let l = payload_len(h.size, h.count);
    let end = 8 + round4_up(l);
    if input.len() < end {
        return Err(ParseError::InsufficientData);
    }
    let v = read_u8_pairs(input, pos, h.count as usize);
    Ok((Block::WindProcessing(v), end))
}

/// Decodes a microphone-wet record: byte triples.
pub fn parse_mwet(input: &[u8]) -> (r: Result<(Block, usize), ParseError>)
    ensures
        spec_matches(r, spec_parse_mwet(input@)),
{
    let (h, pos) = match parse_header(input) {
        Ok(x) => x,
        Err(e) => { return Err(e) },
    };
    if h.tag != TAG_UINT8 || h.size != 3 {
        return Err(ParseError::FormatMismatch);
    }
    let l = payload_len(h.size, h.count);
    let end = 8 + round4_up(l);
    if input.len() < end {
        return Err(ParseError::InsufficientData);
    }
    let v = read_u8_triples(input, pos, h.count as usize);
    Ok((Block::MicrophoneWet(v), end))
}

/// Decodes an audio-level record: signed byte pairs of RMS and peak level.
pub fn parse_aalp(input: &[u8]) -> (r: Result<(Block, usize), ParseError>)
    ensures
        spec_matches(r, spec_parse_aalp(input@)),
{
    let (h, pos) = match parse_header(input) {
        Ok(x) => x,
        Err(e) => { return Err(e) },
    };
    if h.tag != TAG_INT8 || h.size != 2 {
        return Err(ParseError::FormatMismatch);
    }
    let l = payload_len(h.size, h.count);
    let end = 8 + round4_up(l);
    if input.len() < end {
        return Err(ParseError::InsufficientData);
    }
    let v = read_i8_pairs(input, pos, h.count as usize);
    Ok((Block::AGCAudioLevel(v), end))
}

/// Decodes a main-recording frame-skip record: signed 16-bit counters.
pub fn parse_mskp(input: &[u8]) -> (r: Result<(Block, usize), ParseError>)
    ensures
        spec_matches(r, spec_parse_mskp(input@)),
{
    let (h, pos) = match parse_header(input) {
        Ok(x) => x,
        Err(e) => { return Err(e) },
    };
    if h.tag != TAG_INT16 || h.size != 2 {
        return Err(ParseError::FormatMismatch);
    }
    let l = payload_len(h.size, h.count);
    let end = 8 + round4_up(l);
    if input.len() < end {
        return Err(ParseError::InsufficientData);
    }
    let v = read_i16_list(input, pos, h.count as usize);
    Ok((Block::MRVFrameSkip(v), end))
}

/// Decodes a low-resolution-video offset record: one signed byte.
pub fn parse_lrvo(input: &[u8]) -> (r: Result<(Block, usize), ParseError>)
    ensures
        spec_matches(r, spec_parse_lrvo(input@)),
{
    let (h, _pos) = match parse_header(input) {
        Ok(x) => x,
        Err(e) => { return Err(e) },
    };
    if h.tag != TAG_INT8 || h.size != 1 || h.count != 1 {
        return Err(ParseError::FormatMismatch);
    }
    if input.len() < 12 {
        return Err(ParseError::InsufficientData);
    }
    Ok((Block::LRVO(input[8] as i8), 12))
}

/// Decodes a low-resolution-video status record: one signed byte.
pub fn parse_lrvs(input: &[u8]) -> (r: Result<(Block, usize), ParseError>)
    ensures
        spec_matches(r, spec_parse_lrvs(input@)),
{
    let (h, _pos) = match parse_header(input) {
        Ok(x) => x,
        Err(e) => { return Err(e) },
    };
    if h.tag != TAG_INT8 || h.size != 1 || h.count != 1 {
        return Err(ParseError::FormatMismatch);
    }
    if input.len() < 12 {
        return Err(ParseError::InsufficientData);
    }
    Ok((Block::LRVS(input[8] as i8), 12))
}

/// Decodes a low-resolution-video frame-skip record: signed 16-bit
/// counters.
pub fn parse_lskp(input: &[u8]) -> (r: Result<(Block, usize), ParseError>)
    ensures
        spec_matches(r, spec_parse_lskp(input@)),
{
    let (h, pos) = match parse_header(input) {
        Ok(x) => x,
        Err(e) => { return Err(e) },
    };
    if h.tag != TAG_INT16 || h.size != 2 {
        return Err(ParseError::FormatMismatch);
    }
    let l = payload_len(h.size, h.count);
    let end = 8 + round4_up(l);
    if input.len() < end {
        return Err(ParseError::InsufficientData);
    }
    let v = read_i16_list(input, pos, h.count as usize);
    Ok((Block::LRVFrameSkip(v), end))
}

/// Decodes one record: reads the type key and dispatches to the payload
/// decoder for that key, to a grouping decoder, or to the fallback decoder
/// for a key without a table entry.
pub fn parse_block(input: &[u8]) -> (r: Result<(Block, usize), ParseError>)
    ensures
        spec_matches(r, spec_parse_block(input@)),
    decreases input@.len(), 1int,
{
    if input.len() < 8 {
        return Err(ParseError::InsufficientData);
    }
    let key = be_u32_at(input, 0);
    if key == KEY_DEVC {
        parse_devc(input)
    } else if key == KEY_STRM {
        parse_strm(input)
    } else if key == KEY_DVID {
        parse_dvid(input)
    } else if key == KEY_DVNM {
        parse_dvnm(input)
    } else if key == KEY_STMP {
        parse_stmp(input)
    } else if key == KEY_TSMP {
        parse_tsmp(input)
    } else if key == KEY_STNM {
        parse_stnm(input)
    } else if key == KEY_ORIN {
        parse_orin(input)
    } else if key == KEY_SIUN {
        parse_siun(input)
    } else if key == KEY_UNIT {
        parse_siun(input)
    } else if key == KEY_SCAL {
        parse_scal(input)
    } else if key == KEY_TMPC {
        parse_tmpc(input)
    } else if key == KEY_ACCL {
        parse_accl(input)
    } else if key == KEY_GYRO {
        parse_gyro(input)
    } else if key == KEY_SHUT {
        parse_shut(input)
    } else if key == KEY_WBAL {
        parse_wbal(input)
    } else if key == KEY_WRGB {
        parse_wrgb(input)
    } else if key == KEY_ISOE {
        parse_isoe(input)
    } else if key == KEY_UNIF {
        parse_unif(input)
    } else if key == KEY_TYPE {
        parse_type(input)
    } else if key == KEY_GPSF {
        parse_gpsf(input)
    } else if key == KEY_GPSU {
        parse_gpsu(input)
    } else if key == KEY_GPSP {
        parse_gpsp(input)
    } else if key == KEY_GPSA {
        parse_gpsa(input)
    } else if key == KEY_GPS5 {
        parse_gps5(input)
    } else if key == KEY_CORI {
        parse_cori(input)
    } else if key == KEY_IORI {
        parse_iori(input)
    } else if key == KEY_GRAV {
        parse_grav(input)
    } else if key == KEY_WNDM {
        parse_wndm(input)
    } else if key == KEY_MWET {
        parse_mwet(input)
    } else if key == KEY_AALP {
        parse_aalp(input)
    } else if key == KEY_MSKP {
        parse_mskp(input)
    } else if key == KEY_LRVO {
        parse_lrvo(input)
    } else if key == KEY_LRVS {
        parse_lrvs(input)
    } else if key == KEY_LSKP {
        parse_lskp(input)
    } else {
        parse_custom(input)
    }
}

/// Decodes a complete record sequence: one record after another, appended
/// in arrival order, until the buffer is exhausted. Any single-record
/// failure aborts the whole sequence with no partial output.
pub fn parser(input: &[u8]) -> (r: Result<(Vec<Block>, usize), ParseError>)
    ensures
        spec_seq_matches(r, spec_parser(input@)),
    decreases input@.len(), 2int,
{
    let ghost full = input@;
    let mut blocks: Vec<Block> = Vec::new();
    let mut pos: usize = 0;
    proof {
        assert(blocks_view(blocks@) =~= Seq::<BlockView>::empty());
        assert(full.subrange(0, full.len() as int) =~= full);
        let sp = spec_parser(full);
        if sp is Ok {
            assert(Seq::<BlockView>::empty() + sp->Ok_0.0 =~= sp->Ok_0.0);
        }
    }
    loop
        invariant
            pos <= full.len(),
            input@ == full,
            spec_parser(full) == crate::format::spec_combine(
                blocks_view(blocks@),
                pos as int,
                spec_parser(full.subrange(pos as int, full.len() as int)),
            ),
        decreases full.len() - pos,
    {
        let len = input.len();
        let rest = vstd::slice::slice_subrange(input, pos, len);
        let ghost rest_s = full.subrange(pos as int, full.len() as int);
        match parse_block(rest) {
            Err(e) => {
                return Err(e);
            },
            Ok((b, c)) => {
                proof {
                    crate::format::lemma_block_consumed_bounds(rest_s);
                    crate::block::lemma_blocks_view_push(blocks@, b);
                }
                let ghost prev = blocks_view(blocks@);
                let ghost bv = block_view(b);
                blocks.push(b);
                if pos + c == len {
                    return Ok((blocks, len));
                }
                proof {
                    let rest2 = full.subrange(pos + c, full.len() as int);
                    assert(rest2 =~= rest_s.subrange(c as int, rest_s.len() as int));
                    let sp2 = spec_parser(rest2);
                    if sp2 is Ok {
                        let (r2, rc2) = sp2->Ok_0;
                        assert(spec_parser(rest_s) == Ok::<(Seq<BlockView>, int), ParseError>(
                            (seq![bv] + r2, c + rc2),
                        ));
                        assert(prev + (seq![bv] + r2) =~= (prev + seq![bv]) + r2);
                    }
                }
                pos = pos + c;
            },
        }
    }
}

} // verus!
