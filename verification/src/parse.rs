//! Field readers over a payload buffer: a cursor, fixed-width integer
//! reads, strict 0/1 flags, and length-prefixed UTF-8 strings whose
//! declared length is checked against its ceiling before any byte of the
//! string is consumed.
use vstd::prelude::*;
use vstd::slice::{slice_subrange, slice_to_vec};
use vstd::utf8::{decode_utf8, valid_utf8};

use crate::error::{EncodeDecodeError, WhereError};
use crate::wire::{be_u16, be_u32, be_u64, i32_from_repr, i64_from_repr, u16_of_be, u32_of_be,
    u64_of_be};

verus! {

/// A read position inside a received payload.
pub struct PayloadCursor<'a> {
    pub buf: &'a [u8],
    pub pos: usize,
}

/// What reading `n` raw bytes at `pos` yields: the bytes and the new
/// position, or a transport error when the buffer is too short.
pub open spec fn spec_read_bytes(b: Seq<u8>, pos: int, n: int) -> Result<(Seq<u8>, int), WhereError> {
    if 0 <= pos && pos + n <= b.len() {
        Ok((b.subrange(pos, pos + n), pos + n))
    } else {
        Err(WhereError::IOError)
    }
}

/// What reading a big-endian 16-bit field at `pos` yields.
pub open spec fn spec_read_u16(b: Seq<u8>, pos: int) -> Result<(u16, int), WhereError> {
    if 0 <= pos && pos + 2 <= b.len() {
        Ok((u16_of_be(b[pos], b[pos + 1]), pos + 2))
    } else {
        Err(WhereError::IOError)
    }
}

/// What reading a big-endian 32-bit field at `pos` yields.
pub open spec fn spec_read_u32(b: Seq<u8>, pos: int) -> Result<(u32, int), WhereError> {
    if 0 <= pos && pos + 4 <= b.len() {
        Ok((u32_of_be(b[pos], b[pos + 1], b[pos + 2], b[pos + 3]), pos + 4))
    } else {
        Err(WhereError::IOError)
    }
}

/// What reading a big-endian signed 32-bit field at `pos` yields.
pub open spec fn spec_read_i32(b: Seq<u8>, pos: int) -> Result<(i32, int), WhereError> {
    match spec_read_u32(b, pos) {
        Ok((v, p)) => Ok((v as i32, p)),
        Err(e) => Err(e),
    }
}

/// What reading a big-endian signed 64-bit field at `pos` yields.
pub open spec fn spec_read_i64(b: Seq<u8>, pos: int) -> Result<(i64, int), WhereError> {
    if 0 <= pos && pos + 8 <= b.len() {
        Ok((
            (u64_of_be(
                b[pos],
                b[pos + 1],
                b[pos + 2],
                b[pos + 3],
                b[pos + 4],
                b[pos + 5],
                b[pos + 6],
                b[pos + 7],
            )) as i64,
            pos + 8,
        ))
    } else {
        Err(WhereError::IOError)
    }
}

/// What reading a flag byte at `pos` yields: a byte of exactly 0 or 1,
/// anything else being a format violation rather than a truthy value.
pub open spec fn spec_read_bool(b: Seq<u8>, pos: int) -> Result<(bool, int), WhereError> {
    if 0 <= pos && pos + 1 <= b.len() {
        if b[pos] == 0u8 {
            Ok((false, pos + 1))
        } else if b[pos] == 1u8 {
            Ok((true, pos + 1))
        } else {
            Err(WhereError::EncodeDecodeError(EncodeDecodeError::NonbinaryBoolean))
        }
    } else {
        Err(WhereError::IOError)
    }
}

/// What reading a length-prefixed UTF-8 string at `pos` yields. The
/// declared length is held against `max` before any of the string's bytes
/// are read, so an oversized declaration fails with the ceiling error even
/// on a buffer too short to hold that many bytes.
pub open spec fn spec_read_string(b: Seq<u8>, pos: int, max: u32) -> Result<
    (Seq<char>, int),
    WhereError,
> {
    match spec_read_u32(b, pos) {
        Err(e) => Err(e),
        Ok((len, p)) => {
            if len > max {
                Err(
                    WhereError::EncodeDecodeError(
                        EncodeDecodeError::StringSizeLimitExceeded(len, max as usize),
                    ),
                )
            } else if p + len <= b.len() {
                let raw = b.subrange(p, p + len);
                if valid_utf8(raw) {
                    Ok((decode_utf8(raw), p + len))
                } else {
                    Err(WhereError::EncodeDecodeError(EncodeDecodeError::StringDecodeError))
                }
            } else {
                Err(WhereError::IOError)
            }
        },
    }
}

/// Relies on `core::str::from_utf8`: it succeeds exactly on UTF-8-valid
/// input and returns the string slice those bytes spell.
#[verifier::external_body]
pub(crate) fn utf8_field<'a>(bytes: &'a [u8]) -> (r: Option<&'a str>)
    ensures
        r is Some <==> valid_utf8(bytes@),
        match r {
            Some(s) => s@ == decode_utf8(bytes@),
            None => true,
        },
{
    core::str::from_utf8(bytes).ok()
}

/// Reads `size` raw bytes and advances the cursor past them; fails with a
/// transport error, moving nothing, when fewer remain.
pub fn read_field_dynamic(cursor: &mut PayloadCursor, size: usize) -> (r: Result<
    Vec<u8>,
    WhereError,
>)
    ensures
        final(cursor).buf == old(cursor).buf,
        match spec_read_bytes(old(cursor).buf@, old(cursor).pos as int, size as int) {
            Ok((bytes, p)) => r is Ok && r->Ok_0@ == bytes && final(cursor).pos == p,
            Err(e) => r is Err && r->Err_0 == e && final(cursor).pos == old(cursor).pos,
        },
{
    if cursor.pos <= cursor.buf.len() && size <= cursor.buf.len() - cursor.pos {
        let raw: &[u8] = slice_subrange(cursor.buf, cursor.pos, cursor.pos + size);
        let out: Vec<u8> = slice_to_vec(raw);
        cursor.pos = cursor.pos + size;
        Ok(out)
    } else {
        Err(WhereError::IOError)
    }
}

/// Reads a big-endian 16-bit field.
pub fn read_u16_field(cursor: &mut PayloadCursor) -> (r: Result<u16, WhereError>)
    ensures
        final(cursor).buf == old(cursor).buf,
        match spec_read_u16(old(cursor).buf@, old(cursor).pos as int) {
            Ok((v, p)) => r is Ok && r->Ok_0 == v && final(cursor).pos == p,
            Err(e) => r is Err && r->Err_0 == e && final(cursor).pos == old(cursor).pos,
        },
{
    match read_field_dynamic(cursor, 2) {
        Ok(bytes) => Ok(be_u16(bytes[0], bytes[1])),
        Err(e) => Err(e),
    }
}

/// Reads a big-endian 32-bit field.
pub fn read_u32_field(cursor: &mut PayloadCursor) -> (r: Result<u32, WhereError>)
    ensures
        final(cursor).buf == old(cursor).buf,
        match spec_read_u32(old(cursor).buf@, old(cursor).pos as int) {
            Ok((v, p)) => r is Ok && r->Ok_0 == v && final(cursor).pos == p,
            Err(e) => r is Err && r->Err_0 == e && final(cursor).pos == old(cursor).pos,
        },
{
    match read_field_dynamic(cursor, 4) {
        Ok(bytes) => Ok(be_u32(bytes[0], bytes[1], bytes[2], bytes[3])),
        Err(e) => Err(e),
    }
}

/// Reads a big-endian signed 32-bit field.
pub fn read_i32_field(cursor: &mut PayloadCursor) -> (r: Result<i32, WhereError>)
    ensures
        final(cursor).buf == old(cursor).buf,
        match spec_read_i32(old(cursor).buf@, old(cursor).pos as int) {
            Ok((v, p)) => r is Ok && r->Ok_0 == v && final(cursor).pos == p,
            Err(e) => r is Err && r->Err_0 == e && final(cursor).pos == old(cursor).pos,
        },
{
    match read_u32_field(cursor) {
        Ok(v) => Ok(i32_from_repr(v)),
        Err(e) => Err(e),
    }
}

/// Reads a big-endian signed 64-bit field.
pub fn read_i64_field(cursor: &mut PayloadCursor) -> (r: Result<i64, WhereError>)
    ensures
        final(cursor).buf == old(cursor).buf,
        match spec_read_i64(old(cursor).buf@, old(cursor).pos as int) {
            Ok((v, p)) => r is Ok && r->Ok_0 == v && final(cursor).pos == p,
            Err(e) => r is Err && r->Err_0 == e && final(cursor).pos == old(cursor).pos,
        },
{
    match read_field_dynamic(cursor, 8) {
        Ok(bytes) => Ok(
            i64_from_repr(
                be_u64(
                    bytes[0],
                    bytes[1],
                    bytes[2],
                    bytes[3],
                    bytes[4],
                    bytes[5],
                    bytes[6],
                    bytes[7],
                ),
            ),
        ),
        Err(e) => Err(e),
    }
}

/// Reads a strict boolean flag: a byte of value 2 (or any other non-0/1
/// byte) is rejected, not treated as true.
pub fn read_bool_field(cursor: &mut PayloadCursor) -> (r: Result<bool, WhereError>)
    ensures
        final(cursor).buf == old(cursor).buf,
        match spec_read_bool(old(cursor).buf@, old(cursor).pos as int) {
            Ok((v, p)) => r is Ok && r->Ok_0 == v && final(cursor).pos == p,
            Err(e) => r is Err && r->Err_0 == e && final(cursor).pos == old(cursor).pos,
        },
        old(cursor).pos < old(cursor).buf@.len() && old(cursor).buf@[old(cursor).pos as int] != 0u8
            && old(cursor).buf@[old(cursor).pos as int] != 1u8 ==> r is Err && r->Err_0
            == WhereError::EncodeDecodeError(EncodeDecodeError::NonbinaryBoolean),
{
    let start: usize = cursor.pos;
    match read_field_dynamic(cursor, 1) {
        Ok(bytes) => {
            let byte: u8 = bytes[0];
            if byte == 0 {
                Ok(false)
            } else if byte == 1 {
                Ok(true)
            } else {
                cursor.pos = start;
                Err(WhereError::EncodeDecodeError(EncodeDecodeError::NonbinaryBoolean))
            }
        },
        Err(e) => Err(e),
    }
}

/// Reads a length-prefixed UTF-8 string with ceiling `max_length`. The
/// declared length is checked against the ceiling before the bytes are
/// consumed, so a hostile length can cost no read and no allocation.
pub fn read_string_field(cursor: &mut PayloadCursor, max_length: u32) -> (r: Result<
    String,
    WhereError,
>)
    ensures
        final(cursor).buf == old(cursor).buf,
        match spec_read_string(old(cursor).buf@, old(cursor).pos as int, max_length) {
            Ok((s, p)) => r is Ok && r->Ok_0@ == s && final(cursor).pos == p,
            Err(e) => r is Err && r->Err_0 == e,
        },
{
    let string_length: u32 = match read_u32_field(cursor) {
        Ok(v) => v,
        Err(e) => {
            return Err(e);
        },
    };
    if string_length > max_length {
        return Err(
            WhereError::EncodeDecodeError(
                EncodeDecodeError::StringSizeLimitExceeded(string_length, max_length as usize),
            ),
        );
    }
    let raw: Vec<u8> = match read_field_dynamic(cursor, string_length as usize) {
        Ok(v) => v,
        Err(e) => {
            return Err(e);
        },
    };
    match utf8_field(raw.as_slice()) {
        Some(s) => Ok(s.to_owned()),
        None => Err(WhereError::EncodeDecodeError(EncodeDecodeError::StringDecodeError)),
    }
}

} // verus!
