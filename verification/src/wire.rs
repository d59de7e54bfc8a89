//! Big-endian integer layouts used by the wire format, with verified
//! conversions in both directions.
use vstd::prelude::*;

verus! {

/// The two big-endian bytes of a 16-bit value.
pub open spec fn u16_be_bytes(v: u16) -> Seq<u8> {
    seq![((v >> 8) & 0xff) as u8, (v & 0xff) as u8]
}

/// The 16-bit value read from two big-endian bytes.
pub open spec fn u16_of_be(b0: u8, b1: u8) -> u16 {
    ((b0 as u16) << 8) | (b1 as u16)
}

/// The four big-endian bytes of a 32-bit value.
pub open spec fn u32_be_bytes(v: u32) -> Seq<u8> {
    seq![
        ((v >> 24) & 0xff) as u8,
        ((v >> 16) & 0xff) as u8,
        ((v >> 8) & 0xff) as u8,
        (v & 0xff) as u8,
    ]
}

/// The 32-bit value read from four big-endian bytes.
pub open spec fn u32_of_be(b0: u8, b1: u8, b2: u8, b3: u8) -> u32 {
    ((b0 as u32) << 24) | ((b1 as u32) << 16) | ((b2 as u32) << 8) | (b3 as u32)
}

/// The eight big-endian bytes of a 64-bit value.
pub open spec fn u64_be_bytes(v: u64) -> Seq<u8> {
    seq![
        ((v >> 56) & 0xff) as u8,
        ((v >> 48) & 0xff) as u8,
        ((v >> 40) & 0xff) as u8,
        ((v >> 32) & 0xff) as u8,
        ((v >> 24) & 0xff) as u8,
        ((v >> 16) & 0xff) as u8,
        ((v >> 8) & 0xff) as u8,
        (v & 0xff) as u8,
    ]
}

/// The 64-bit value read from eight big-endian bytes.
pub open spec fn u64_of_be(
    b0: u8,
    b1: u8,
    b2: u8,
    b3: u8,
    b4: u8,
    b5: u8,
    b6: u8,
    b7: u8,
) -> u64 {
    ((b0 as u64) << 56) | ((b1 as u64) << 48) | ((b2 as u64) << 40) | ((b3 as u64) << 32) | ((
    b4 as u64) << 24) | ((b5 as u64) << 16) | ((b6 as u64) << 8) | (b7 as u64)
}

/// Reading back the big-endian bytes of a 16-bit value yields the value.
pub proof fn lemma_u16_be_round_trip(v: u16)
    ensures
        u16_of_be(((v >> 8) & 0xff) as u8, (v & 0xff) as u8) == v,
{
    assert(((((v >> 8) & 0xff) as u8) as u16) << 8 | (((v & 0xff) as u8) as u16) == v)
        by (bit_vector);
}

/// Reading back the big-endian bytes of a 32-bit value yields the value.
pub proof fn lemma_u32_be_round_trip(v: u32)
    ensures
        u32_of_be(
            ((v >> 24) & 0xff) as u8,
            ((v >> 16) & 0xff) as u8,
            ((v >> 8) & 0xff) as u8,
            (v & 0xff) as u8,
        ) == v,
{
    assert(((((v >> 24) & 0xff) as u8) as u32) << 24 | ((((v >> 16) & 0xff) as u8) as u32) << 16 | (
    (((v >> 8) & 0xff) as u8) as u32) << 8 | (((v & 0xff) as u8) as u32) == v) by (bit_vector);
}

/// Reading back the big-endian bytes of a 64-bit value yields the value.
pub proof fn lemma_u64_be_round_trip(v: u64)
    ensures
        u64_of_be(
            ((v >> 56) & 0xff) as u8,
            ((v >> 48) & 0xff) as u8,
            ((v >> 40) & 0xff) as u8,
            ((v >> 32) & 0xff) as u8,
            ((v >> 24) & 0xff) as u8,
            ((v >> 16) & 0xff) as u8,
            ((v >> 8) & 0xff) as u8,
            (v & 0xff) as u8,
        ) == v,
{
    assert(((((v >> 56) & 0xff) as u8) as u64) << 56 | ((((v >> 48) & 0xff) as u8) as u64) << 48 | (
    (((v >> 40) & 0xff) as u8) as u64) << 40 | ((((v >> 32) & 0xff) as u8) as u64) << 32 | ((((v
        >> 24) & 0xff) as u8) as u64) << 24 | ((((v >> 16) & 0xff) as u8) as u64) << 16 | ((((v
        >> 8) & 0xff) as u8) as u64) << 8 | (((v & 0xff) as u8) as u64) == v) by (bit_vector);
}

/// Casting a process id to its unsigned two's-complement image and back
/// yields the id.
pub proof fn lemma_i32_cast_round_trip(v: i32)
    ensures
        ((v as u32) as i32) == v,
{
    assert(((v as u32) as i32) == v) by (bit_vector);
}

/// Casting a timestamp to its unsigned two's-complement image and back
/// yields the timestamp.
pub proof fn lemma_i64_cast_round_trip(v: i64)
    ensures
        ((v as u64) as i64) == v,
{
    assert(((v as u64) as i64) == v) by (bit_vector);
}

/// Appends the two big-endian bytes of a 16-bit value.
pub fn push_u16_be(out: &mut Vec<u8>, v: u16)
    ensures
        final(out)@ == old(out)@ + u16_be_bytes(v),
{
    out.push(#[verifier::truncate] (((v >> 8) & 0xff) as u8));
    out.push(#[verifier::truncate] ((v & 0xff) as u8));
    assert(out@ =~= old(out)@ + u16_be_bytes(v));
}

/// Appends the four big-endian bytes of a 32-bit value.
pub fn push_u32_be(out: &mut Vec<u8>, v: u32)
    ensures
        final(out)@ == old(out)@ + u32_be_bytes(v),
{
    out.push(#[verifier::truncate] (((v >> 24) & 0xff) as u8));
    out.push(#[verifier::truncate] (((v >> 16) & 0xff) as u8));
    out.push(#[verifier::truncate] (((v >> 8) & 0xff) as u8));
    out.push(#[verifier::truncate] ((v & 0xff) as u8));
    assert(out@ =~= old(out)@ + u32_be_bytes(v));
}

/// Appends the eight big-endian bytes of a 64-bit value.
pub fn push_u64_be(out: &mut Vec<u8>, v: u64)
    ensures
        final(out)@ == old(out)@ + u64_be_bytes(v),
{
    out.push(#[verifier::truncate] (((v >> 56) & 0xff) as u8));
    out.push(#[verifier::truncate] (((v >> 48) & 0xff) as u8));
    out.push(#[verifier::truncate] (((v >> 40) & 0xff) as u8));
    out.push(#[verifier::truncate] (((v >> 32) & 0xff) as u8));
    out.push(#[verifier::truncate] (((v >> 24) & 0xff) as u8));
    out.push(#[verifier::truncate] (((v >> 16) & 0xff) as u8));
    out.push(#[verifier::truncate] (((v >> 8) & 0xff) as u8));
    out.push(#[verifier::truncate] ((v & 0xff) as u8));
    assert(out@ =~= old(out)@ + u64_be_bytes(v));
}

/// Combines two big-endian bytes into a 16-bit value.
pub fn be_u16(b0: u8, b1: u8) -> (r: u16)
    ensures
        r == u16_of_be(b0, b1),
{
    ((b0 as u16) << 8) | (b1 as u16)
}

/// Combines four big-endian bytes into a 32-bit value.
pub fn be_u32(b0: u8, b1: u8, b2: u8, b3: u8) -> (r: u32)
    ensures
        r == u32_of_be(b0, b1, b2, b3),
{
    ((b0 as u32) << 24) | ((b1 as u32) << 16) | ((b2 as u32) << 8) | (b3 as u32)
}

/// Combines eight big-endian bytes into a 64-bit value.
pub fn be_u64(b0: u8, b1: u8, b2: u8, b3: u8, b4: u8, b5: u8, b6: u8, b7: u8) -> (r: u64)
    ensures
        r == u64_of_be(b0, b1, b2, b3, b4, b5, b6, b7),
{
    ((b0 as u64) << 56) | ((b1 as u64) << 48) | ((b2 as u64) << 40) | ((b3 as u64) << 32) | ((
    b4 as u64) << 24) | ((b5 as u64) << 16) | ((b6 as u64) << 8) | (b7 as u64)
}

/// The unsigned two's-complement image of a process id.
pub fn i32_to_repr(v: i32) -> (r: u32)
    ensures
        r == v as u32,
{
    #[verifier::truncate] (v as u32)
}

/// The process id whose unsigned two's-complement image is given.
pub fn i32_from_repr(v: u32) -> (r: i32)
    ensures
        r == v as i32,
{
    #[verifier::truncate] (v as i32)
}

/// The unsigned two's-complement image of a timestamp.
pub fn i64_to_repr(v: i64) -> (r: u64)
    ensures
        r == v as u64,
{
    #[verifier::truncate] (v as u64)
}

/// The timestamp whose unsigned two's-complement image is given.
pub fn i64_from_repr(v: u64) -> (r: i64)
    ensures
        r == v as i64,
{
    #[verifier::truncate] (v as i64)
}

} // verus!
