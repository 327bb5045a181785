//! The decoder's general laws, each proved against the format model that
//! the executable decoders are verified to implement: determinism, the
//! padding law, container exactness, and the unit-string correction.

use vstd::prelude::*;

use crate::block::BlockView;
use crate::error::ParseError;
use crate::format::{
    spec_count, spec_i16_list, spec_i16_quads, spec_i16_triples, spec_i32_list, spec_i8_pairs,
    spec_key, spec_len_sc, spec_len_unit, spec_parse_block, spec_parser, spec_payload_len,
    spec_size, spec_tag, spec_u16_list, spec_u32_list, spec_u32_triples, spec_u8_pairs,
    spec_u8_triples, KEY_AALP, KEY_ACCL, KEY_CORI, KEY_DEVC, KEY_DVID, KEY_DVNM, KEY_GPS5,
    KEY_GPSA, KEY_GPSF, KEY_GPSP, KEY_GPSU, KEY_GRAV, KEY_GYRO, KEY_IORI, KEY_ISOE, KEY_LRVO,
    KEY_LRVS, KEY_LSKP, KEY_MSKP, KEY_MWET, KEY_ORIN, KEY_SCAL, KEY_SHUT, KEY_SIUN, KEY_STMP,
    KEY_STNM, KEY_STRM, KEY_TMPC, KEY_TSMP, KEY_TYPE, KEY_UNIF, KEY_UNIT, KEY_WBAL, KEY_WNDM,
    KEY_WRGB, TAG_INT32, TAG_NESTED,
};
use crate::cursor::spec_round4;
use crate::text::{spec_unit_text_bytes, utf8_decode, UNIT_SUFFIX_ASCII, UNIT_SUFFIX_RAW};

verus! {

broadcast use crate::cursor::lemma_mul_nonneg;

proof fn lemma_i16_list_congruent(s1: Seq<u8>, s2: Seq<u8>, base: int, count: int)
    requires
        count >= 0,
        forall|i: int| base <= i < base + 2 * count ==> s1[i] == s2[i],
    ensures
        spec_i16_list(s1, base, count) == spec_i16_list(s2, base, count),
{
    let a = spec_i16_list(s1, base, count);
    let b = spec_i16_list(s2, base, count);
    assert forall|j: int| 0 <= j < count implies a[j] == b[j] by {
        assert(s1[base + 2 * j] == s2[base + 2 * j]);
        assert(s1[base + 2 * j + 1] == s2[base + 2 * j + 1]);
    }
    assert(a =~= b);
}

proof fn lemma_u16_list_congruent(s1: Seq<u8>, s2: Seq<u8>, base: int, count: int)
    requires
        count >= 0,
        forall|i: int| base <= i < base + 2 * count ==> s1[i] == s2[i],
    ensures
        spec_u16_list(s1, base, count) == spec_u16_list(s2, base, count),
{
    let a = spec_u16_list(s1, base, count);
    let b = spec_u16_list(s2, base, count);
    assert forall|j: int| 0 <= j < count implies a[j] == b[j] by {
        assert(s1[base + 2 * j] == s2[base + 2 * j]);
        assert(s1[base + 2 * j + 1] == s2[base + 2 * j + 1]);
    }
    assert(a =~= b);
}

proof fn lemma_i32_list_congruent(s1: Seq<u8>, s2: Seq<u8>, base: int, count: int)
    requires
        count >= 0,
        forall|i: int| base <= i < base + 4 * count ==> s1[i] == s2[i],
    ensures
        spec_i32_list(s1, base, count) == spec_i32_list(s2, base, count),
{
    let a = spec_i32_list(s1, base, count);
    let b = spec_i32_list(s2, base, count);
    assert forall|j: int| 0 <= j < count implies a[j] == b[j] by {
        assert(s1[base + 4 * j] == s2[base + 4 * j]);
        assert(s1[base + 4 * j + 1] == s2[base + 4 * j + 1]);
        assert(s1[base + 4 * j + 2] == s2[base + 4 * j + 2]);
        assert(s1[base + 4 * j + 3] == s2[base + 4 * j + 3]);
    }
    assert(a =~= b);
}

proof fn lemma_u32_list_congruent(s1: Seq<u8>, s2: Seq<u8>, base: int, count: int)
    requires
        count >= 0,
        forall|i: int| base <= i < base + 4 * count ==> s1[i] == s2[i],
    ensures
        spec_u32_list(s1, base, count) == spec_u32_list(s2, base, count),
{
    let a = spec_u32_list(s1, base, count);
    let b = spec_u32_list(s2, base, count);
    assert forall|j: int| 0 <= j < count implies a[j] == b[j] by {
        assert(s1[base + 4 * j] == s2[base + 4 * j]);
        assert(s1[base + 4 * j + 1] == s2[base + 4 * j + 1]);
        assert(s1[base + 4 * j + 2] == s2[base + 4 * j + 2]);
        assert(s1[base + 4 * j + 3] == s2[base + 4 * j + 3]);
    }
    assert(a =~= b);
}

proof fn lemma_i16_triples_congruent(s1: Seq<u8>, s2: Seq<u8>, base: int, count: int)
    requires
        count >= 0,
        forall|i: int| base <= i < base + 6 * count ==> s1[i] == s2[i],
    ensures
        spec_i16_triples(s1, base, count) == spec_i16_triples(s2, base, count),
{
    let a = spec_i16_triples(s1, base, count);
    let b = spec_i16_triples(s2, base, count);
    assert forall|j: int| 0 <= j < count implies a[j] == b[j] by {
        assert(s1[base + 6 * j] == s2[base + 6 * j]);
        assert(s1[base + 6 * j + 1] == s2[base + 6 * j + 1]);
        assert(s1[base + 6 * j + 2] == s2[base + 6 * j + 2]);
        assert(s1[base + 6 * j + 3] == s2[base + 6 * j + 3]);
        assert(s1[base + 6 * j + 4] == s2[base + 6 * j + 4]);
        assert(s1[base + 6 * j + 5] == s2[base + 6 * j + 5]);
    }
    assert(a =~= b);
}

proof fn lemma_i16_quads_congruent(s1: Seq<u8>, s2: Seq<u8>, base: int, count: int)
    requires
        count >= 0,
        forall|i: int| base <= i < base + 8 * count ==> s1[i] == s2[i],
    ensures
        spec_i16_quads(s1, base, count) == spec_i16_quads(s2, base, count),
{
    let a = spec_i16_quads(s1, base, count);
    let b = spec_i16_quads(s2, base, count);
    assert forall|j: int| 0 <= j < count implies a[j] == b[j] by {
        assert(s1[base + 8 * j] == s2[base + 8 * j]);
        assert(s1[base + 8 * j + 1] == s2[base + 8 * j + 1]);
        assert(s1[base + 8 * j + 2] == s2[base + 8 * j + 2]);
        assert(s1[base + 8 * j + 3] == s2[base + 8 * j + 3]);
        assert(s1[base + 8 * j + 4] == s2[base + 8 * j + 4]);
        assert(s1[base + 8 * j + 5] == s2[base + 8 * j + 5]);
        assert(s1[base + 8 * j + 6] == s2[base + 8 * j + 6]);
        assert(s1[base + 8 * j + 7] == s2[base + 8 * j + 7]);
    }
    assert(a =~= b);
}

proof fn lemma_u32_triples_congruent(s1: Seq<u8>, s2: Seq<u8>, base: int, count: int)
    requires
        count >= 0,
        forall|i: int| base <= i < base + 12 * count ==> s1[i] == s2[i],
    ensures
        spec_u32_triples(s1, base, count) == spec_u32_triples(s2, base, count),
{
    let a = spec_u32_triples(s1, base, count);
    let b = spec_u32_triples(s2, base, count);
    assert forall|j: int| 0 <= j < count implies a[j] == b[j] by {
        assert(s1[base + 12 * j] == s2[base + 12 * j]);
        assert(s1[base + 12 * j + 1] == s2[base + 12 * j + 1]);
        assert(s1[base + 12 * j + 2] == s2[base + 12 * j + 2]);
        assert(s1[base + 12 * j + 3] == s2[base + 12 * j + 3]);
        assert(s1[base + 12 * j + 4] == s2[base + 12 * j + 4]);
        assert(s1[base + 12 * j + 5] == s2[base + 12 * j + 5]);
        assert(s1[base + 12 * j + 6] == s2[base + 12 * j + 6]);
        assert(s1[base + 12 * j + 7] == s2[base + 12 * j + 7]);
        assert(s1[base + 12 * j + 8] == s2[base + 12 * j + 8]);
        assert(s1[base + 12 * j + 9] == s2[base + 12 * j + 9]);
        assert(s1[base + 12 * j + 10] == s2[base + 12 * j + 10]);
        assert(s1[base + 12 * j + 11] == s2[base + 12 * j + 11]);
    }
    assert(a =~= b);
}

proof fn lemma_u8_pairs_congruent(s1: Seq<u8>, s2: Seq<u8>, base: int, count: int)
    requires
        count >= 0,
        forall|i: int| base <= i < base + 2 * count ==> s1[i] == s2[i],
    ensures
        spec_u8_pairs(s1, base, count) == spec_u8_pairs(s2, base, count),
{
    let a = spec_u8_pairs(s1, base, count);
    let b = spec_u8_pairs(s2, base, count);
    assert forall|j: int| 0 <= j < count implies a[j] == b[j] by {
        assert(s1[base + 2 * j] == s2[base + 2 * j]);
        assert(s1[base + 2 * j + 1] == s2[base + 2 * j + 1]);
    }
    assert(a =~= b);
}

proof fn lemma_u8_triples_congruent(s1: Seq<u8>, s2: Seq<u8>, base: int, count: int)
    requires
        count >= 0,
        forall|i: int| base <= i < base + 3 * count ==> s1[i] == s2[i],
    ensures
        spec_u8_triples(s1, base, count) == spec_u8_triples(s2, base, count),
{
    let a = spec_u8_triples(s1, base, count);
    let b = spec_u8_triples(s2, base, count);
    assert forall|j: int| 0 <= j < count implies a[j] == b[j] by {
        assert(s1[base + 3 * j] == s2[base + 3 * j]);
        assert(s1[base + 3 * j + 1] == s2[base + 3 * j + 1]);
        assert(s1[base + 3 * j + 2] == s2[base + 3 * j + 2]);
    }
    assert(a =~= b);
}

proof fn lemma_i8_pairs_congruent(s1: Seq<u8>, s2: Seq<u8>, base: int, count: int)
    requires
        count >= 0,
        forall|i: int| base <= i < base + 2 * count ==> s1[i] == s2[i],
    ensures
        spec_i8_pairs(s1, base, count) == spec_i8_pairs(s2, base, count),
{
    let a = spec_i8_pairs(s1, base, count);
    let b = spec_i8_pairs(s2, base, count);
    assert forall|j: int| 0 <= j < count implies a[j] == b[j] by {
        assert(s1[base + 2 * j] == s2[base + 2 * j]);
        assert(s1[base + 2 * j + 1] == s2[base + 2 * j + 1]);
    }
    assert(a =~= b);
}

/// Decoding is deterministic: the record value and the advance are a
/// function of the input bytes alone. Every executable decoder's contract
/// equates its result with `spec_parse_block` of its input, so any two
/// results of decoding the same bytes coincide.
pub proof fn lemma_decode_deterministic(
    bytes: Seq<u8>,
    r1: Result<(BlockView, int), ParseError>,
    r2: Result<(BlockView, int), ParseError>,
)
    requires
        r1 == spec_parse_block(bytes),
        r2 == spec_parse_block(bytes),
    ensures
        r1 == r2,
{
}

/// The padding law, first half: a successfully decoded non-grouping record
/// with payload length `L` advances past exactly `((L + 3) / 4) * 4 - L`
/// bytes beyond its header and payload.
pub proof fn lemma_padding_advance(s: Seq<u8>)
    requires
        spec_parse_block(s) is Ok,
        spec_key(s) != KEY_DEVC,
        spec_key(s) != KEY_STRM,
    ensures
        spec_parse_block(s)->Ok_0.1 == 8 + spec_payload_len(s) + (((spec_payload_len(s) + 3) / 4)
            * 4 - spec_payload_len(s)),
{
    let l = spec_payload_len(s);
    assert(l >= 0);
    crate::format::lemma_round4_formula(l);
    assert(spec_parse_block(s)->Ok_0.1 == 8 + spec_round4(l));
}

/// The padding law, second half: the bytes after a record's payload never
/// affect the decoded value or the advance. Two equally long buffers that
/// agree on the header and payload decode identically, whatever stands in
/// the padding bytes or beyond.
pub proof fn lemma_padding_content_irrelevant(s1: Seq<u8>, s2: Seq<u8>)
    requires
        s1.len() == s2.len(),
        spec_parse_block(s1) is Ok,
        s1.subrange(0, 8 + spec_payload_len(s1)) == s2.subrange(0, 8 + spec_payload_len(s1)),
    ensures
        spec_parse_block(s2) == spec_parse_block(s1),
{
    let l = spec_payload_len(s1);
    assert(l >= 0);
    assert(s1.len() >= 8);
    assert forall|i: int| 0 <= i < 8 + l implies s1[i] == s2[i] by {
        assert(s1.subrange(0, 8 + l)[i] == s2.subrange(0, 8 + l)[i]);
    }
    assert(spec_key(s2) == spec_key(s1));
    assert(spec_tag(s2) == spec_tag(s1));
    assert(spec_size(s2) == spec_size(s1));
    assert(spec_count(s2) == spec_count(s1));
    let key = spec_key(s1);
    let count = spec_count(s1);
    if key == KEY_DEVC || key == KEY_STRM {
        assert(s1.subrange(8, 8 + spec_len_sc(s1)) =~= s2.subrange(8, 8 + spec_len_sc(s1)));
    } else if key == KEY_SIUN || key == KEY_UNIT {
        assert(s1.subrange(8, 8 + spec_len_unit(s1)) =~= s2.subrange(8, 8 + spec_len_unit(s1)));
    } else if key == KEY_DVNM || key == KEY_STNM || key == KEY_ORIN || key == KEY_TYPE || key
        == KEY_GPSU || key == KEY_GPS5 {
        assert(s1.subrange(8, 8 + spec_len_sc(s1)) =~= s2.subrange(8, 8 + spec_len_sc(s1)));
    } else if key == KEY_DVID || key == KEY_GPSA {
        assert(s1.subrange(8, 12) =~= s2.subrange(8, 12));
    } else if key == KEY_SCAL {
        if spec_tag(s1) == TAG_INT32 {
            lemma_i32_list_congruent(s1, s2, 8, count);
        }
    } else if key == KEY_ACCL || key == KEY_GYRO || key == KEY_GRAV {
        lemma_i16_triples_congruent(s1, s2, 8, count);
    } else if key == KEY_CORI || key == KEY_IORI {
        lemma_i16_quads_congruent(s1, s2, 8, count);
    } else if key == KEY_SHUT || key == KEY_UNIF {
        lemma_u32_list_congruent(s1, s2, 8, count);
    } else if key == KEY_WBAL || key == KEY_ISOE {
        lemma_u16_list_congruent(s1, s2, 8, count);
    } else if key == KEY_WRGB {
        lemma_u32_triples_congruent(s1, s2, 8, count);
    } else if key == KEY_WNDM {
        lemma_u8_pairs_congruent(s1, s2, 8, count);
    } else if key == KEY_MWET {
        lemma_u8_triples_congruent(s1, s2, 8, count);
    } else if key == KEY_AALP {
        lemma_i8_pairs_congruent(s1, s2, 8, count);
    } else if key == KEY_MSKP || key == KEY_LSKP {
        lemma_i16_list_congruent(s1, s2, 8, count);
    } else if key == KEY_STMP || key == KEY_TSMP || key == KEY_TMPC || key == KEY_GPSF || key
        == KEY_GPSP || key == KEY_LRVO || key == KEY_LRVS {
        // Fixed scalars read at most eight payload bytes, all inside the
        // agreed prefix: nothing further to supply.
    } else {
        assert(s1.subrange(0, 4) =~= s2.subrange(0, 4));
        assert(s1.subrange(8, 8 + spec_len_sc(s1)) =~= s2.subrange(8, 8 + spec_len_sc(s1)));
    }
}

/// A record sequence only succeeds by consuming its whole buffer: no
/// leftover bytes ever remain after a successful sequence decode.
pub proof fn lemma_parser_consumes_all(s: Seq<u8>)
    ensures
        spec_parser(s) matches Ok((blocks, c)) ==> c == s.len(),
    decreases s.len(),
{
    match spec_parse_block(s) {
        Ok((b, c)) => {
            if 0 < c < s.len() {
                lemma_parser_consumes_all(s.subrange(c, s.len() as int));
            }
        },
        Err(_) => {},
    }
}

/// Container exactness: a grouping record with declared nested length `N`
/// decodes successfully exactly when its `N`-byte sub-buffer decodes as a
/// complete record sequence; the children then consume exactly `N` bytes,
/// zero bytes are left over, and the record advances `8 + N` bytes with no
/// rounding. A sub-decode that left bytes unconsumed would be the
/// `TrailingData` failure, and the sequence decoder never produces one.
pub proof fn lemma_container_exactness(s: Seq<u8>)
    requires
        s.len() >= 8,
        spec_key(s) == KEY_DEVC || spec_key(s) == KEY_STRM,
        spec_tag(s) == TAG_NESTED,
        s.len() >= 8 + spec_len_sc(s),
    ensures
        spec_parser(s.subrange(8, 8 + spec_len_sc(s))) matches Ok((children, c)) ==> {
            &&& c == spec_len_sc(s)
            &&& spec_key(s) == KEY_DEVC ==> spec_parse_block(s) == Ok::<
                (BlockView, int),
                ParseError,
            >((BlockView::DeviceSource(children), 8 + spec_len_sc(s)))
            &&& spec_key(s) == KEY_STRM ==> spec_parse_block(s) == Ok::<
                (BlockView, int),
                ParseError,
            >((BlockView::Stream(children), 8 + spec_len_sc(s)))
        },
        spec_parser(s.subrange(8, 8 + spec_len_sc(s))) matches Err(e) ==> spec_parse_block(s)
            == Err::<(BlockView, int), ParseError>(e),
{
    let n = spec_len_sc(s);
    let sub = s.subrange(8, 8 + n);
    lemma_parser_consumes_all(sub);
}

/// The unit-string correction: a unit-string record of element size `S`
/// and count one, whose final payload byte is the raw squared/inverse
/// suffix, decodes to the UTF-8 decoding of its first `S - 1` bytes with
/// that trailing byte replaced by the ASCII digit `2`.
pub proof fn lemma_unit_string_correction(s: Seq<u8>)
    requires
        spec_key(s) == KEY_SIUN || spec_key(s) == KEY_UNIT,
        spec_count(s) == 1,
        spec_size(s) >= 2,
        s.len() >= 8 + spec_size(s) - 1,
        s[8 + spec_size(s) - 2] == UNIT_SUFFIX_RAW,
        spec_parse_block(s) is Ok,
    ensures
        spec_parse_block(s)->Ok_0.0 == BlockView::UnitsSI(
            utf8_decode(
                s.subrange(8, 8 + spec_size(s) - 1).update(spec_size(s) - 2, UNIT_SUFFIX_ASCII),
            )->Some_0,
        ),
{
    let sz = spec_size(s);
    let raw = s.subrange(8, 8 + sz - 1);
    assert(spec_len_unit(s) == sz - 1) by {
        assert((sz - 1) * 1 == sz - 1) by (nonlinear_arith);
    }
    assert(raw.len() == sz - 1);
    assert(raw[sz - 2] == UNIT_SUFFIX_RAW);
    assert(spec_unit_text_bytes(raw) == raw.update(sz - 2, UNIT_SUFFIX_ASCII));
}

} // verus!
