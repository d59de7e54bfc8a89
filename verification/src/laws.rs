//! The format's guarantees, proved once and for all over the codec's
//! specification: encoding then decoding restores a collection, a wrong
//! magic or an out-of-bound field is always refused, and the refusals
//! come in the promised order.
use vstd::prelude::*;
use vstd::utf8::{decode_utf8, encode_utf8, encode_utf8_decode_utf8, encode_utf8_valid_utf8,
    valid_utf8};

use crate::error::{EncodeDecodeError, WhereError};
use crate::parse::{spec_read_bool, spec_read_i32, spec_read_i64, spec_read_string, spec_read_u16,
    spec_read_u32};
use crate::wire::{lemma_i32_cast_round_trip, lemma_i64_cast_round_trip, lemma_u16_be_round_trip,
    lemma_u32_be_round_trip, lemma_u64_be_round_trip, u16_be_bytes, u32_be_bytes, u64_be_bytes};
use crate::{spec_decode, spec_decode_entry, spec_decode_entries, spec_encode, spec_encode_entries,
    spec_encode_entry, spec_encode_string, spec_entry_error, spec_magic, SessionV,
    MAX_REMOTE_LENGTH, MAX_USER_TTY_LENGTH};

verus! {

/// The sessions of `ss` with every host label replaced by `label`: what a
/// client holds after decoding a reply from the target so labeled.
pub open spec fn spec_attach(ss: Seq<SessionV>, label: Seq<char>) -> Seq<SessionV> {
    Seq::new(ss.len(), |i: int| SessionV { host: Some(label), ..ss[i] })
}

/// The data model's invariant on a run of sessions: a remote peer, when
/// present, is never the empty string.
pub open spec fn spec_remotes_nonempty(ss: Seq<SessionV>) -> bool {
    forall|i: int|
        0 <= i < ss.len() ==> (match (#[trigger] ss[i]).remote {
            Some(r) => r.len() > 0,
            None => true,
        })
}

/// Splits knowledge of a buffer range holding `x + y` into knowledge of
/// the two subranges holding `x` and `y`.
proof fn lemma_buffer_parts(b: Seq<u8>, p: int, x: Seq<u8>, y: Seq<u8>)
    requires
        0 <= p,
        p + x.len() + y.len() <= b.len(),
        b.subrange(p, p + x.len() + y.len() as int) == x + y,
    ensures
        b.subrange(p, p + x.len() as int) == x,
        b.subrange(p + x.len() as int, p + x.len() + y.len() as int) == y,
{
    let c = x + y;
    assert forall|k: int| 0 <= k < x.len() implies b.subrange(p, p + x.len() as int)[k] == x[k] by {
        assert(b.subrange(p, p + c.len() as int)[k] == b[p + k]);
        assert(c[k] == x[k]);
    }
    assert(b.subrange(p, p + x.len() as int) =~= x);
    assert forall|k: int|
        0 <= k < y.len() implies b.subrange(
        p + x.len() as int,
        p + x.len() + y.len() as int,
    )[k] == y[k] by {
        assert(b.subrange(p, p + c.len() as int)[x.len() + k] == b[p + x.len() + k]);
        assert(c[x.len() as int + k] == y[k]);
    }
    assert(b.subrange(p + x.len() as int, p + x.len() + y.len() as int) =~= y);
}

/// Turns knowledge of a subrange holding `x` into per-byte knowledge.
proof fn lemma_bytes_at(b: Seq<u8>, p: int, x: Seq<u8>)
    requires
        0 <= p,
        p + x.len() <= b.len(),
        b.subrange(p, p + x.len() as int) == x,
    ensures
        forall|k: int| 0 <= k < x.len() ==> b[p + k] == x[k],
{
    assert forall|k: int| 0 <= k < x.len() implies b[p + k] == x[k] by {
        assert(b.subrange(p, p + x.len() as int)[k] == b[p + k]);
    }
}

/// Turns knowledge of a one-byte subrange into knowledge of that byte.
proof fn lemma_byte_at(b: Seq<u8>, p: int, x: Seq<u8>)
    requires
        0 <= p,
        x.len() == 1,
        p + 1 <= b.len(),
        b.subrange(p, p + 1) == x,
    ensures
        b[p] == x[0],
{
    assert(b.subrange(p, p + 1)[0] == b[p]);
}

/// Decoding one entry from the bytes its encoding produced yields the
/// same session, labeled with the decoder's host, and stops exactly at
/// the entry's end.
proof fn lemma_entry_round_trip(b: Seq<u8>, pos: int, s: SessionV, label: Seq<char>)
    requires
        spec_entry_error(s) is None,
        (match s.remote {
            Some(r) => r.len() > 0,
            None => true,
        }),
        0 <= pos,
        pos + spec_encode_entry(s).len() <= b.len(),
        b.subrange(pos, pos + spec_encode_entry(s).len() as int) == spec_encode_entry(s),
    ensures
        spec_decode_entry(b, pos, label) == Ok::<(SessionV, int), WhereError>(
            (SessionV { host: Some(label), ..s }, pos + spec_encode_entry(s).len()),
        ),
{
    broadcast use encode_utf8_valid_utf8, encode_utf8_decode_utf8;

    let e = spec_encode_entry(s);
    let p1 = u32_be_bytes(s.pid as u32);
    let p2 = u64_be_bytes(s.login_time as u64);
    let p3 = spec_encode_string(s.user);
    let p4 = spec_encode_string(s.tty);
    let p5: Seq<u8> = match s.remote {
        None => seq![0u8],
        Some(r) => seq![1u8] + spec_encode_string(r),
    };
    let p6 = seq![if s.active { 1u8 } else { 0u8 }];
    let q2 = p1 + p2;
    let q3 = q2 + p3;
    let q4 = q3 + p4;
    let q5 = q4 + p5;
    assert(e == q5 + p6);

    let ul = encode_utf8(s.user).len() as int;
    let tl = encode_utf8(s.tty).len() as int;
    assert(ul <= MAX_USER_TTY_LENGTH && tl <= MAX_USER_TTY_LENGTH);

    lemma_buffer_parts(b, pos, q5, p6);
    lemma_buffer_parts(b, pos, q4, p5);
    lemma_buffer_parts(b, pos, q3, p4);
    lemma_buffer_parts(b, pos, q2, p3);
    lemma_buffer_parts(b, pos, p1, p2);

    // pid
    lemma_bytes_at(b, pos, p1);
    lemma_u32_be_round_trip(s.pid as u32);
    lemma_i32_cast_round_trip(s.pid);
    assert(spec_read_i32(b, pos) == Ok::<(i32, int), WhereError>((s.pid, pos + 4)));

    // login time
    lemma_bytes_at(b, pos + 4, p2);
    lemma_u64_be_round_trip(s.login_time as u64);
    lemma_i64_cast_round_trip(s.login_time);
    assert(spec_read_i64(b, pos + 4) == Ok::<(i64, int), WhereError>((s.login_time, pos + 12)));

    // user
    let upos = pos + 12;
    lemma_buffer_parts(b, upos, u32_be_bytes(ul as u32), encode_utf8(s.user));
    lemma_bytes_at(b, upos, u32_be_bytes(ul as u32));
    lemma_u32_be_round_trip(ul as u32);
    assert(spec_read_u32(b, upos) == Ok::<(u32, int), WhereError>((ul as u32, upos + 4)));
    assert(spec_read_string(b, upos, MAX_USER_TTY_LENGTH as u32) == Ok::<
        (Seq<char>, int),
        WhereError,
    >((s.user, upos + 4 + ul)));

    // tty
    let tpos = upos + 4 + ul;
    assert(b.subrange(tpos, tpos + p4.len() as int) == p4);
    lemma_buffer_parts(b, tpos, u32_be_bytes(tl as u32), encode_utf8(s.tty));
    lemma_bytes_at(b, tpos, u32_be_bytes(tl as u32));
    lemma_u32_be_round_trip(tl as u32);
    assert(spec_read_u32(b, tpos) == Ok::<(u32, int), WhereError>((tl as u32, tpos + 4)));
    assert(spec_read_string(b, tpos, MAX_USER_TTY_LENGTH as u32) == Ok::<
        (Seq<char>, int),
        WhereError,
    >((s.tty, tpos + 4 + tl)));

    // remote flag, remote, active flag
    let fpos = tpos + 4 + tl;
    assert(b.subrange(fpos, fpos + p5.len() as int) == p5);
    match s.remote {
        None => {
            lemma_byte_at(b, fpos, p5);
            assert(b[fpos] == 0u8);
            assert(spec_read_bool(b, fpos) == Ok::<(bool, int), WhereError>((false, fpos + 1)));
            lemma_byte_at(b, fpos + 1, p6);
            assert(b[fpos + 1] == (if s.active {
                1u8
            } else {
                0u8
            }));
            assert(spec_read_bool(b, fpos + 1) == Ok::<(bool, int), WhereError>(
                (s.active, fpos + 2),
            ));
            assert(fpos + 2 == pos + e.len());
            assert(spec_decode_entry(b, pos, label) == Ok::<(SessionV, int), WhereError>(
                (SessionV { host: Some(label), ..s }, pos + e.len()),
            ));
        },
        Some(r) => {
            let rl = encode_utf8(r).len() as int;
            assert(rl <= MAX_REMOTE_LENGTH);
            lemma_buffer_parts(b, fpos, seq![1u8], spec_encode_string(r));
            lemma_byte_at(b, fpos, seq![1u8]);
            assert(b[fpos] == 1u8);
            assert(spec_read_bool(b, fpos) == Ok::<(bool, int), WhereError>((true, fpos + 1)));
            let rpos = fpos + 1;
            lemma_buffer_parts(b, rpos, u32_be_bytes(rl as u32), encode_utf8(r));
            lemma_bytes_at(b, rpos, u32_be_bytes(rl as u32));
            lemma_u32_be_round_trip(rl as u32);
            assert(spec_read_u32(b, rpos) == Ok::<(u32, int), WhereError>((rl as u32, rpos + 4)));
            assert(spec_read_string(b, rpos, MAX_REMOTE_LENGTH as u32) == Ok::<
                (Seq<char>, int),
                WhereError,
            >((r, rpos + 4 + rl)));
            let apos = rpos + 4 + rl;
            lemma_byte_at(b, apos, p6);
            assert(b[apos] == (if s.active {
                1u8
            } else {
                0u8
            }));
            assert(spec_read_bool(b, apos) == Ok::<(bool, int), WhereError>((s.active, apos + 1)));
            assert(apos + 1 == pos + e.len());
            assert(spec_decode_entry(b, pos, label) == Ok::<(SessionV, int), WhereError>(
                (SessionV { host: Some(label), ..s }, pos + e.len()),
            ));
        },
    }
}

/// Decoding a run of encoded entries restores the run, labeled, and stops
/// at its end.
proof fn lemma_entries_round_trip(b: Seq<u8>, pos: int, ss: Seq<SessionV>, label: Seq<char>)
    requires
        spec_encode_entries(ss) is Ok,
        spec_remotes_nonempty(ss),
        0 <= pos,
        pos + spec_encode_entries(ss)->Ok_0.len() <= b.len(),
        b.subrange(pos, pos + spec_encode_entries(ss)->Ok_0.len() as int) == spec_encode_entries(
            ss,
        )->Ok_0,
    ensures
        spec_decode_entries(b, pos, ss.len() as int, label) == Ok::<
            (Seq<SessionV>, int),
            WhereError,
        >((spec_attach(ss, label), pos + spec_encode_entries(ss)->Ok_0.len())),
    decreases ss.len(),
{
    let body = spec_encode_entries(ss)->Ok_0;
    if ss.len() == 0 {
        assert(spec_attach(ss, label) =~= Seq::<SessionV>::empty());
    } else {
        let s0 = ss[0];
        let e0 = spec_encode_entry(s0);
        let rest = spec_encode_entries(ss.drop_first())->Ok_0;
        assert(body == e0 + rest);
        lemma_buffer_parts(b, pos, e0, rest);
        lemma_entry_round_trip(b, pos, s0, label);
        assert(spec_remotes_nonempty(ss.drop_first())) by {
            assert(forall|i: int|
                0 <= i < ss.drop_first().len() ==> #[trigger] ss.drop_first()[i] == ss[i + 1]);
        }
        lemma_entries_round_trip(b, pos + e0.len() as int, ss.drop_first(), label);
        assert(seq![SessionV { host: Some(label), ..s0 }] + spec_attach(ss.drop_first(), label)
            =~= spec_attach(ss, label));
    }
}

/// Round trip: decoding an encoded collection under any host label yields
/// the same sessions in the same order, each labeled with that host. This
/// holds for every collection the encoder accepts whose remotes obey the
/// data model (a remote, when present, is non-empty).
#[verifier::rlimit(50)]
pub proof fn lemma_round_trip(ss: Seq<SessionV>, label: Seq<char>)
    requires
        spec_encode(ss) is Ok,
        spec_remotes_nonempty(ss),
    ensures
        spec_decode(spec_encode(ss)->Ok_0, label) == Ok::<Seq<SessionV>, WhereError>(
            spec_attach(ss, label),
        ),
{
    let bytes = spec_encode(ss)->Ok_0;
    let n = ss.len() as u16;
    let body = spec_encode_entries(ss)->Ok_0;
    let header = spec_magic() + u16_be_bytes(n);
    assert(bytes == header + body);
    assert(bytes.subrange(0, bytes.len() as int) =~= bytes);
    lemma_buffer_parts(bytes, 0, header, body);
    lemma_buffer_parts(bytes, 0, spec_magic(), u16_be_bytes(n));
    lemma_bytes_at(bytes, 4, u16_be_bytes(n));
    lemma_u16_be_round_trip(n);
    assert(spec_read_u16(bytes, 4) == Ok::<(u16, int), WhereError>((n, 6)));
    lemma_entries_round_trip(bytes, 6, ss, label);
    assert(n as int == ss.len());
}

/// Rejection: a payload that does not open with the magic is always
/// refused with the bad-magic condition carrying the four bytes found,
/// and nothing after them is ever examined.
pub proof fn lemma_bad_magic_rejected(b: Seq<u8>, label: Seq<char>)
    requires
        b.len() >= 4,
        b.subrange(0, 4) != spec_magic(),
    ensures
        spec_decode(b, label) == Err::<Seq<SessionV>, WhereError>(
            WhereError::EncodeDecodeError(EncodeDecodeError::BadMagic([b[0], b[1], b[2], b[3]])),
        ),
{
}

/// Bound enforcement: a collection holding a session whose `user` field
/// exceeds its ceiling is never encoded into a payload.
pub proof fn lemma_oversized_user_rejected(ss: Seq<SessionV>, i: int)
    requires
        0 <= i < ss.len(),
        encode_utf8(ss[i].user).len() > MAX_USER_TTY_LENGTH,
    ensures
        spec_encode(ss) is Err,
    decreases i,
{
    if ss.len() > 0xffff {
    } else {
        lemma_oversized_user_entries(ss, i);
    }
}

/// A run of entries holding an oversized `user` field is refused.
proof fn lemma_oversized_user_entries(ss: Seq<SessionV>, i: int)
    requires
        0 <= i < ss.len(),
        encode_utf8(ss[i].user).len() > MAX_USER_TTY_LENGTH,
    ensures
        spec_encode_entries(ss) is Err,
    decreases i,
{
    if i == 0 {
        assert(spec_entry_error(ss[0]) is Some);
    } else {
        if spec_entry_error(ss[0]) is Some {
        } else {
            assert(ss.drop_first()[i - 1] == ss[i]);
            lemma_oversized_user_entries(ss.drop_first(), i - 1);
        }
    }
}

/// Length-ceiling check precedes byte consumption: when a string field
/// declares a length over its ceiling, the read fails with the ceiling
/// error whatever else the buffer holds — even one too short to hold that
/// many bytes.
pub proof fn lemma_length_ceiling_checked_first(b: Seq<u8>, pos: int, max: u32, len: u32, p: int)
    requires
        spec_read_u32(b, pos) == Ok::<(u32, int), WhereError>((len, p)),
        len > max,
    ensures
        spec_read_string(b, pos, max) == Err::<(Seq<char>, int), WhereError>(
            WhereError::EncodeDecodeError(
                EncodeDecodeError::StringSizeLimitExceeded(len, max as usize),
            ),
        ),
{
}

/// Boolean strictness: a flag byte other than 0 or 1 is a format
/// violation, never treated as true.
pub proof fn lemma_strict_boolean(b: Seq<u8>, pos: int)
    requires
        0 <= pos,
        pos + 1 <= b.len(),
        b[pos] != 0u8,
        b[pos] != 1u8,
    ensures
        spec_read_bool(b, pos) == Err::<(bool, int), WhereError>(
            WhereError::EncodeDecodeError(EncodeDecodeError::NonbinaryBoolean),
        ),
{
}

/// The position after an entry's fixed-order fields (pid, login time,
/// user, tty), when they all parse.
pub open spec fn spec_entry_prefix_end(b: Seq<u8>, pos: int) -> Option<int> {
    match spec_read_i32(b, pos) {
        Err(_) => None,
        Ok((_, p1)) => match spec_read_i64(b, p1) {
            Err(_) => None,
            Ok((_, p2)) => match spec_read_string(b, p2, MAX_USER_TTY_LENGTH as u32) {
                Err(_) => None,
                Ok((_, p3)) => match spec_read_string(b, p3, MAX_USER_TTY_LENGTH as u32) {
                    Err(_) => None,
                    Ok((_, p4)) => Some(p4),
                },
            },
        },
    }
}

/// Empty-remote rejection: an entry whose remote-presence flag is 1 and
/// whose declared remote length is 0 fails to decode, rather than
/// yielding a session with an empty remote string.
pub proof fn lemma_empty_remote_rejected(b: Seq<u8>, pos: int, p4: int, label: Seq<char>)
    requires
        spec_entry_prefix_end(b, pos) == Some(p4),
        p4 + 5 <= b.len(),
        b[p4] == 1u8,
        b[p4 + 1] == 0u8,
        b[p4 + 2] == 0u8,
        b[p4 + 3] == 0u8,
        b[p4 + 4] == 0u8,
    ensures
        spec_decode_entry(b, pos, label) == Err::<(SessionV, int), WhereError>(
            WhereError::EncodeDecodeError(EncodeDecodeError::EmptyRemote),
        ),
{
    assert(spec_read_bool(b, p4) == Ok::<(bool, int), WhereError>((true, p4 + 1)));
    assert(crate::wire::u32_of_be(0u8, 0u8, 0u8, 0u8) == 0u32) by (bit_vector);
    assert(spec_read_u32(b, p4 + 1) == Ok::<(u32, int), WhereError>((0u32, p4 + 5)));
    let raw = b.subrange(p4 + 5, p4 + 5);
    assert(raw =~= Seq::<u8>::empty());
    assert(valid_utf8(raw));
    assert(decode_utf8(raw).len() == 0);
    assert(spec_read_string(b, p4 + 1, MAX_REMOTE_LENGTH as u32) == Ok::<
        (Seq<char>, int),
        WhereError,
    >((decode_utf8(raw), p4 + 5)));
}

} // verus!
