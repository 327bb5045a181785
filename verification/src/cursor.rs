//! The byte cursor: stateless reads over an immutable byte slice at an
//! explicit position. Every read fails with `InsufficientData` when fewer
//! than the requested bytes remain; on success it returns the value and the
//! advanced position. No alignment behaviour lives here.

use vstd::prelude::*;

use crate::error::ParseError;

verus! {

/// The unsigned big-endian value of the two bytes at `i`.
pub open spec fn spec_be_u16(s: Seq<u8>, i: int) -> u16 {
    (s[i] * 0x100 + s[i + 1]) as u16
}

/// The unsigned big-endian value of the four bytes at `i`.
pub open spec fn spec_be_u32(s: Seq<u8>, i: int) -> u32 {
    (s[i] * 0x1000000 + s[i + 1] * 0x10000 + s[i + 2] * 0x100 + s[i + 3]) as u32
}

/// The unsigned big-endian value of the eight bytes at `i`.
pub open spec fn spec_be_u64(s: Seq<u8>, i: int) -> u64 {
    (spec_be_u32(s, i) * 0x100000000 + spec_be_u32(s, i + 4)) as u64
}

/// The two's-complement signed value of the two bytes at `i`.
pub open spec fn spec_be_i16(s: Seq<u8>, i: int) -> i16 {
    spec_be_u16(s, i) as i16
}

/// The two's-complement signed value of the four bytes at `i`.
pub open spec fn spec_be_i32(s: Seq<u8>, i: int) -> i32 {
    spec_be_u32(s, i) as i32
}

/// How many bytes follow a payload of `n` bytes to reach the next 4-byte
/// boundary.
pub open spec fn spec_pad4(n: int) -> int {
    if n % 4 == 0 {
        0
    } else {
        4 - n % 4
    }
}

/// `n` rounded up to a multiple of 4.
pub open spec fn spec_round4(n: int) -> int {
    n + spec_pad4(n)
}

/// A product of two nonnegative lengths is nonnegative; declared-length
/// computations in the format model rest on it.
pub broadcast proof fn lemma_mul_nonneg(a: int, b: int)
    requires
        a >= 0,
        b >= 0,
    ensures
        #[trigger] (a * b) >= 0,
{
    assert(a * b >= 0) by (nonlinear_arith)
        requires
            a >= 0,
            b >= 0,
    ;
}

/// The big-endian unsigned 16-bit value at `pos`, which must be in bounds.
pub fn be_u16_at(input: &[u8], pos: usize) -> (v: u16)
    requires
        pos + 2 <= input@.len(),
    ensures
        v == spec_be_u16(input@, pos as int),
{
    (input[pos] as u16) * 0x100 + (input[pos + 1] as u16)
}

/// The big-endian unsigned 32-bit value at `pos`, which must be in bounds.
pub fn be_u32_at(input: &[u8], pos: usize) -> (v: u32)
    requires
        pos + 4 <= input@.len(),
    ensures
        v == spec_be_u32(input@, pos as int),
{
    (input[pos] as u32) * 0x1000000 + (input[pos + 1] as u32) * 0x10000
        + (input[pos + 2] as u32) * 0x100 + (input[pos + 3] as u32)
}

/// The big-endian signed 16-bit value at `pos`, which must be in bounds.
pub fn be_i16_at(input: &[u8], pos: usize) -> (v: i16)
    requires
        pos + 2 <= input@.len(),
    ensures
        v == spec_be_i16(input@, pos as int),
{
    be_u16_at(input, pos) as i16
}

/// The big-endian signed 32-bit value at `pos`, which must be in bounds.
pub fn be_i32_at(input: &[u8], pos: usize) -> (v: i32)
    requires
        pos + 4 <= input@.len(),
    ensures
        v == spec_be_i32(input@, pos as int),
{
    be_u32_at(input, pos) as i32
}

/// Reads one byte at `pos`.
pub fn read_u8(input: &[u8], pos: usize) -> (r: Result<(u8, usize), ParseError>)
    ensures
        r is Ok <==> pos + 1 <= input@.len(),
        r matches Ok((v, p)) ==> v == input@[pos as int] && p == pos + 1,
        r is Err ==> r == Err::<(u8, usize), ParseError>(ParseError::InsufficientData),
{
    if pos < input.len() {
        Ok((input[pos], pos + 1))
    } else {
        Err(ParseError::InsufficientData)
    }
}

/// Reads a big-endian unsigned 16-bit integer at `pos`.
pub fn read_be_u16(input: &[u8], pos: usize) -> (r: Result<(u16, usize), ParseError>)
    ensures
        r is Ok <==> pos + 2 <= input@.len(),
        r matches Ok((v, p)) ==> v == spec_be_u16(input@, pos as int) && p == pos + 2,
        r is Err ==> r == Err::<(u16, usize), ParseError>(ParseError::InsufficientData),
{
    if input.len() >= 2 && pos <= input.len() - 2 {
        let v = (input[pos] as u16) * 0x100 + (input[pos + 1] as u16);
        Ok((v, pos + 2))
    } else {
        Err(ParseError::InsufficientData)
    }
}

/// Reads a big-endian unsigned 32-bit integer at `pos`.
pub fn read_be_u32(input: &[u8], pos: usize) -> (r: Result<(u32, usize), ParseError>)
    ensures
        r is Ok <==> pos + 4 <= input@.len(),
        r matches Ok((v, p)) ==> v == spec_be_u32(input@, pos as int) && p == pos + 4,
        r is Err ==> r == Err::<(u32, usize), ParseError>(ParseError::InsufficientData),
{
    if input.len() >= 4 && pos <= input.len() - 4 {
        let v = (input[pos] as u32) * 0x1000000 + (input[pos + 1] as u32) * 0x10000
            + (input[pos + 2] as u32) * 0x100 + (input[pos + 3] as u32);
        Ok((v, pos + 4))
    } else {
        Err(ParseError::InsufficientData)
    }
}

/// Reads a big-endian unsigned 64-bit integer at `pos`.
pub fn read_be_u64(input: &[u8], pos: usize) -> (r: Result<(u64, usize), ParseError>)
    ensures
        r is Ok <==> pos + 8 <= input@.len(),
        r matches Ok((v, p)) ==> v == spec_be_u64(input@, pos as int) && p == pos + 8,
        r is Err ==> r == Err::<(u64, usize), ParseError>(ParseError::InsufficientData),
{
    if input.len() >= 8 && pos <= input.len() - 8 {
        let (hi, mid) = match read_be_u32(input, pos) {
            Ok(x) => x,
            Err(e) => { return Err(e); },
        };
        let (lo, p) = match read_be_u32(input, mid) {
            Ok(x) => x,
            Err(e) => { return Err(e); },
        };
        Ok(((hi as u64) * 0x100000000 + (lo as u64), p))
    } else {
        Err(ParseError::InsufficientData)
    }
}

/// Reads a big-endian signed 16-bit integer at `pos`.
pub fn read_be_i16(input: &[u8], pos: usize) -> (r: Result<(i16, usize), ParseError>)
    ensures
        r is Ok <==> pos + 2 <= input@.len(),
        r matches Ok((v, p)) ==> v == spec_be_i16(input@, pos as int) && p == pos + 2,
        r is Err ==> r == Err::<(i16, usize), ParseError>(ParseError::InsufficientData),
{
    match read_be_u16(input, pos) {
        Ok((v, p)) => Ok((v as i16, p)),
        Err(e) => Err(e),
    }
}

/// Reads a big-endian signed 32-bit integer at `pos`.
pub fn read_be_i32(input: &[u8], pos: usize) -> (r: Result<(i32, usize), ParseError>)
    ensures
        r is Ok <==> pos + 4 <= input@.len(),
        r matches Ok((v, p)) ==> v == spec_be_i32(input@, pos as int) && p == pos + 4,
        r is Err ==> r == Err::<(i32, usize), ParseError>(ParseError::InsufficientData),
{
    match read_be_u32(input, pos) {
        Ok((v, p)) => Ok((v as i32, p)),
        Err(e) => Err(e),
    }
}

/// Copies the `len` bytes at `pos` out of the slice.
pub fn read_bytes(input: &[u8], pos: usize, len: usize) -> (r: Result<(Vec<u8>, usize), ParseError>)
    ensures
        r is Ok <==> pos + len <= input@.len(),
        r matches Ok((v, p)) ==> v@ == input@.subrange(pos as int, pos + len) && p == pos + len,
        r is Err ==> r == Err::<(Vec<u8>, usize), ParseError>(ParseError::InsufficientData),
{
    if len <= input.len() && pos <= input.len() - len {
        let mut v: Vec<u8> = Vec::new();
        let mut j: usize = 0;
        while j < len
            invariant
                pos + len <= input@.len(),
                pos + len <= usize::MAX,
                j <= len,
                v@.len() == j,
                forall|k: int| 0 <= k < j ==> v@[k] == input@[pos + k],
            decreases len - j,
        {
            v.push(input[pos + j]);
            j += 1;
        }
        assert(v@ =~= input@.subrange(pos as int, pos + len));
        Ok((v, pos + len))
    } else {
        Err(ParseError::InsufficientData)
    }
}

/// Reads the 1-byte element size followed by the 2-byte big-endian element
/// count, the two length fields that follow a record's type key and tag.
pub fn parse_size_count(input: &[u8], pos: usize) -> (r: Result<((usize, usize), usize), ParseError>)
    ensures
        r is Ok <==> pos + 3 <= input@.len(),
        r matches Ok(((size, count), p)) ==> size == input@[pos as int]
            && count == spec_be_u16(input@, pos + 1) && p == pos + 3,
        r is Err ==> r == Err::<((usize, usize), usize), ParseError>(ParseError::InsufficientData),
{
    let (size, p) = match read_u8(input, pos) {
        Ok(x) => x,
        Err(e) => { return Err(e); },
    };
    let (count, p) = match read_be_u16(input, p) {
        Ok(x) => x,
        Err(e) => { return Err(e); },
    };
    Ok(((size as usize, count as usize), p))
}

} // verus!
