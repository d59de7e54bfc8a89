//! Wire protocol and client retry engine for a remote-session reporting
//! service: a responder answers a single-datagram probe with an encoded
//! snapshot of login sessions, and a client collates the replies from a
//! configured list of targets.
use vstd::prelude::*;
use vstd::utf8::encode_utf8;

use crate::error::{EncodeDecodeError, WhereError};
use crate::parse::{read_bool_field, read_field_dynamic, read_i32_field, read_i64_field,
    read_string_field, read_u16_field, spec_read_bool, spec_read_i32,
    spec_read_i64, spec_read_string, spec_read_u16, PayloadCursor};
use crate::wire::{i32_to_repr, i64_to_repr, push_u16_be, push_u32_be, push_u64_be, u16_be_bytes,
    u32_be_bytes, u64_be_bytes};

pub mod args;
pub mod config;
pub mod daemon;
pub mod error;
pub mod laws;
pub mod parse;
pub mod servers;
pub mod ui;
pub mod wire;

verus! {

/// Four-byte constant that opens every payload; a mismatch means the
/// datagram is not this protocol's (or was corrupted in flight).
pub const WHERED_MAGIC: [u8; 4] = [0x57u8, 0x48u8, 0x52u8, 0x44u8];

/// Ceiling, in encoded bytes, for the `user` and `tty` fields.
pub const MAX_USER_TTY_LENGTH: usize = 32;

/// Ceiling, in encoded bytes, for the `remote` field.
pub const MAX_REMOTE_LENGTH: usize = 64;

/// Ceiling for one encoded entry: the field maxima plus fixed-width overhead.
pub const MAX_ENTRY_LENGTH: usize = MAX_REMOTE_LENGTH + MAX_USER_TTY_LENGTH * 2 + 25;

/// Capacity of one unfragmented datagram; an encoded payload never exceeds it.
pub const MAX_PAYLOAD_LENGTH: usize = 65501;

/// How many maximal entries fit in one datagram.
pub const MAX_PAYLOAD_ENTRIES: usize = MAX_PAYLOAD_LENGTH / MAX_ENTRY_LENGTH;

/// One login session on a host.
#[derive(Debug)]
pub struct Session {
    /// Label of the target that produced this record; attached by the
    /// client after decoding, never carried on the wire.
    pub host: Option<String>,
    /// Process identifier of the session leader.
    pub pid: i32,
    /// Unix timestamp (seconds) of session start.
    pub login_time: i64,
    /// Login name, at most `MAX_USER_TTY_LENGTH` encoded bytes.
    pub user: String,
    /// Terminal or device name, at most `MAX_USER_TTY_LENGTH` encoded bytes.
    pub tty: String,
    /// Remote peer the session came from; `None` for local sessions, and
    /// never the empty string when present.
    pub remote: Option<String>,
    /// Whether the session is currently live.
    pub active: bool,
}

/// Mathematical model of a `Session`: each text field as its character
/// sequence.
#[verifier::ext_equal]
pub ghost struct SessionV {
    pub host: Option<Seq<char>>,
    pub pid: i32,
    pub login_time: i64,
    pub user: Seq<char>,
    pub tty: Seq<char>,
    pub remote: Option<Seq<char>>,
    pub active: bool,
}

impl View for Session {
    type V = SessionV;

    open spec fn view(&self) -> SessionV {
        SessionV {
            host: match self.host {
                Some(h) => Some(h@),
                None => None,
            },
            pid: self.pid,
            login_time: self.login_time,
            user: self.user@,
            tty: self.tty@,
            remote: match self.remote {
                Some(r) => Some(r@),
                None => None,
            },
            active: self.active,
        }
    }
}

/// The bytes every payload opens with.
pub open spec fn spec_magic() -> Seq<u8> {
    seq![0x57u8, 0x48u8, 0x52u8, 0x44u8]
}

/// The encoding of one length-prefixed string field: a big-endian 32-bit
/// byte count, then the string's UTF-8 bytes.
pub open spec fn spec_encode_string(s: Seq<char>) -> Seq<u8> {
    u32_be_bytes(encode_utf8(s).len() as u32) + encode_utf8(s)
}

/// The encoding of one entry: pid, login time, user, tty, the remote
/// presence flag and (when present) the remote peer, then the active flag.
pub open spec fn spec_encode_entry(s: SessionV) -> Seq<u8> {
    u32_be_bytes(s.pid as u32) + u64_be_bytes(s.login_time as u64) + spec_encode_string(s.user)
        + spec_encode_string(s.tty) + (match s.remote {
        None => seq![0u8],
        Some(r) => seq![1u8] + spec_encode_string(r),
    }) + seq![if s.active { 1u8 } else { 0u8 }]
}

/// The first format violation that encoding one entry runs into, if any:
/// a field over its ceiling, or a whole entry over the per-entry bound.
pub open spec fn spec_entry_error(s: SessionV) -> Option<EncodeDecodeError> {
    if encode_utf8(s.user).len() > MAX_USER_TTY_LENGTH {
        Some(
            EncodeDecodeError::StringSizeLimitExceeded(
                encode_utf8(s.user).len() as u32,
                MAX_USER_TTY_LENGTH,
            ),
        )
    } else if encode_utf8(s.tty).len() > MAX_USER_TTY_LENGTH {
        Some(
            EncodeDecodeError::StringSizeLimitExceeded(
                encode_utf8(s.tty).len() as u32,
                MAX_USER_TTY_LENGTH,
            ),
        )
    } else {
        match s.remote {
            Some(r) => if encode_utf8(r).len() > MAX_REMOTE_LENGTH {
                Some(
                    EncodeDecodeError::StringSizeLimitExceeded(
                        encode_utf8(r).len() as u32,
                        MAX_REMOTE_LENGTH,
                    ),
                )
            } else if spec_encode_entry(s).len() > MAX_ENTRY_LENGTH {
                Some(EncodeDecodeError::InvalidEntryLength(spec_encode_entry(s).len() as usize))
            } else {
                None
            },
            None => if spec_encode_entry(s).len() > MAX_ENTRY_LENGTH {
                Some(EncodeDecodeError::InvalidEntryLength(spec_encode_entry(s).len() as usize))
            } else {
                None
            },
        }
    }
}

/// The concatenated encodings of a run of entries, or the first violation
/// found while walking them in order.
pub open spec fn spec_encode_entries(ss: Seq<SessionV>) -> Result<Seq<u8>, EncodeDecodeError>
    decreases ss.len(),
{
    if ss.len() == 0 {
        Ok(Seq::empty())
    } else {
        match spec_entry_error(ss[0]) {
            Some(e) => Err(e),
            None => match spec_encode_entries(ss.drop_first()) {
                Ok(rest) => Ok(spec_encode_entry(ss[0]) + rest),
                Err(e) => Err(e),
            },
        }
    }
}

/// The encoding of a whole collection: magic, big-endian 16-bit entry
/// count, then the entries. A collection with more entries than the count
/// field can carry is refused outright, an oversized field or entry is
/// refused at that entry, and a payload over the datagram capacity is
/// refused after the entries.
pub open spec fn spec_encode(ss: Seq<SessionV>) -> Result<Seq<u8>, EncodeDecodeError> {
    if ss.len() > 0xffff {
        Err(EncodeDecodeError::InvalidPayloadLength(ss.len() as usize))
    } else {
        match spec_encode_entries(ss) {
            Err(e) => Err(e),
            Ok(body) => {
                if 6 + body.len() > MAX_PAYLOAD_LENGTH {
                    Err(EncodeDecodeError::InvalidPayloadLength((6 + body.len()) as usize))
                } else {
                    Ok(spec_magic() + u16_be_bytes(ss.len() as u16) + body)
                }
            },
        }
    }
}

/// What decoding one entry at `pos` yields: the session (labeled with the
/// caller-supplied host) and the position after it, or the violation that
/// aborts the decode. An entry that declares a remote peer and carries an
/// empty string is a violation, not a session with an empty remote.
pub open spec fn spec_decode_entry(b: Seq<u8>, pos: int, host: Seq<char>) -> Result<
    (SessionV, int),
    WhereError,
> {
    match spec_read_i32(b, pos) {
        Err(e) => Err(e),
        Ok((pid, p1)) => match spec_read_i64(b, p1) {
            Err(e) => Err(e),
            Ok((login_time, p2)) => match spec_read_string(b, p2, MAX_USER_TTY_LENGTH as u32) {
                Err(e) => Err(e),
                Ok((user, p3)) => match spec_read_string(b, p3, MAX_USER_TTY_LENGTH as u32) {
                    Err(e) => Err(e),
                    Ok((tty, p4)) => match spec_read_bool(b, p4) {
                        Err(e) => Err(e),
                        Ok((has_remote, p5)) => {
                            if has_remote {
                                match spec_read_string(b, p5, MAX_REMOTE_LENGTH as u32) {
                                    Err(e) => Err(e),
                                    Ok((remote, p6)) => {
                                        if remote.len() == 0 {
                                            Err(
                                                WhereError::EncodeDecodeError(
                                                    EncodeDecodeError::EmptyRemote,
                                                ),
                                            )
                                        } else {
                                            match spec_read_bool(b, p6) {
                                                Err(e) => Err(e),
                                                Ok((active, p7)) => Ok(
                                                    (
                                                        SessionV {
                                                            host: Some(host),
                                                            pid,
                                                            login_time,
                                                            user,
                                                            tty,
                                                            remote: Some(remote),
                                                            active,
                                                        },
                                                        p7,
                                                    ),
                                                ),
                                            }
                                        }
                                    },
                                }
                            } else {
                                match spec_read_bool(b, p5) {
                                    Err(e) => Err(e),
                                    Ok((active, p6)) => Ok(
                                        (
                                            SessionV {
                                                host: Some(host),
                                                pid,
                                                login_time,
                                                user,
                                                tty,
                                                remote: None,
                                                active,
                                            },
                                            p6,
                                        ),
                                    ),
                                }
                            }
                        },
                    },
                },
            },
        },
    }
}

/// What decoding `n` consecutive entries at `pos` yields: the sessions in
/// order and the position after them, or the first violation found.
pub open spec fn spec_decode_entries(b: Seq<u8>, pos: int, n: int, host: Seq<char>) -> Result<
    (Seq<SessionV>, int),
    WhereError,
>
    decreases n,
{
    if n <= 0 {
        Ok((Seq::empty(), pos))
    } else {
        match spec_decode_entry(b, pos, host) {
            Err(e) => Err(e),
            Ok((s, p)) => match spec_decode_entries(b, p, n - 1, host) {
                Err(e) => Err(e),
                Ok((rest, pf)) => Ok((seq![s] + rest, pf)),
            },
        }
    }
}

/// What decoding a whole payload yields. The magic is checked first and a
/// mismatch short-circuits everything after it; decoding is all or
/// nothing, so any violation in any entry yields an error and no sessions.
/// Bytes after the declared entries are ignored, as a datagram buffer is
/// handed over at its full fixed size.
pub open spec fn spec_decode(b: Seq<u8>, host: Seq<char>) -> Result<Seq<SessionV>, WhereError> {
    if b.len() < 4 {
        Err(WhereError::IOError)
    } else if b.subrange(0, 4) != spec_magic() {
        Err(WhereError::EncodeDecodeError(EncodeDecodeError::BadMagic([b[0], b[1], b[2], b[3]])))
    } else {
        match spec_read_u16(b, 4) {
            Err(e) => Err(e),
            Ok((n, p)) => match spec_decode_entries(b, p, n as int, host) {
                Err(e) => Err(e),
                Ok((ss, _)) => Ok(ss),
            },
        }
    }
}

/// Appends one length-prefixed string field.
fn push_string(out: &mut Vec<u8>, s: &str)
    ensures
        final(out)@ == old(out)@ + spec_encode_string(s@),
{
    let bytes: &[u8] = s.as_bytes();
    let len: usize = bytes.len();
    push_u32_be(out, #[verifier::truncate] (len as u32));
    out.extend_from_slice(bytes);
    assert(out@ =~= old(out)@ + spec_encode_string(s@));
}

impl Session {
    /// Encodes this session as one wire entry. Unconditional: the bound
    /// checks belong to the collection encoder.
    pub fn to_udp_payload(&self) -> (r: Vec<u8>)
        ensures
            r@ == spec_encode_entry(self@),
    {
        let mut bytes: Vec<u8> = Vec::new();
        push_u32_be(&mut bytes, i32_to_repr(self.pid));
        push_u64_be(&mut bytes, i64_to_repr(self.login_time));
        push_string(&mut bytes, self.user.as_str());
        push_string(&mut bytes, self.tty.as_str());
        match &self.remote {
            None => {
                bytes.push(0u8);
            },
            Some(peer) => {
                bytes.push(1u8);
                push_string(&mut bytes, peer.as_str());
            },
        }
        let active_byte: u8 = if self.active {
            1
        } else {
            0
        };
        bytes.push(active_byte);
        assert(bytes@ =~= spec_encode_entry(self@));
        bytes
    }

    /// Decodes one entry at the cursor, labeling the session with the
    /// given host; any violation aborts with the error the format assigns
    /// it.
    pub fn from_udp_payload(cursor: &mut PayloadCursor, host: &str) -> (r: Result<
        Session,
        WhereError,
    >)
        ensures
            final(cursor).buf == old(cursor).buf,
            match spec_decode_entry(old(cursor).buf@, old(cursor).pos as int, host@) {
                Ok((s, p)) => r is Ok && r->Ok_0@ == s && final(cursor).pos == p,
                Err(e) => r is Err && r->Err_0 == e,
            },
    {
        let pid: i32 = match read_i32_field(cursor) {
            Ok(v) => v,
            Err(e) => {
                return Err(e);
            },
        };
        let login_time: i64 = match read_i64_field(cursor) {
            Ok(v) => v,
            Err(e) => {
                return Err(e);
            },
        };
        let user: String = match read_string_field(cursor, MAX_USER_TTY_LENGTH as u32) {
            Ok(v) => v,
            Err(e) => {
                return Err(e);
            },
        };
        let tty: String = match read_string_field(cursor, MAX_USER_TTY_LENGTH as u32) {
            Ok(v) => v,
            Err(e) => {
                return Err(e);
            },
        };
        let has_remote: bool = match read_bool_field(cursor) {
            Ok(v) => v,
            Err(e) => {
                return Err(e);
            },
        };
        let remote: Option<String> = if has_remote {
            let peer: String = match read_string_field(cursor, MAX_REMOTE_LENGTH as u32) {
                Ok(v) => v,
                Err(e) => {
                    return Err(e);
                },
            };
            if peer.as_str().is_empty() {
                return Err(WhereError::EncodeDecodeError(EncodeDecodeError::EmptyRemote));
            }
            Some(peer)
        } else {
            None
        };
        let active: bool = match read_bool_field(cursor) {
            Ok(v) => v,
            Err(e) => {
                return Err(e);
            },
        };
        Ok(
            Session {
                host: Some(host.to_owned()),
                pid,
                login_time,
                user,
                tty,
                remote,
                active,
            },
        )
    }

    /// Builds a session from the plain values a session-accounting
    /// source yields. Text fields are cut to their wire ceilings at a
    /// character boundary, an empty host means a local session with no
    /// remote, and only a live user-process entry counts as active.
    pub fn from_gathered(
        user: &str,
        tty: &str,
        host: &str,
        pid: i32,
        login_time: i64,
        is_user_process: bool,
        is_active: bool,
    ) -> (r: Session)
        ensures
            r@.host is None,
            r@.pid == pid,
            r@.login_time == login_time,
            r@.active == (is_user_process && is_active),
            spec_truncated_to(user@, MAX_USER_TTY_LENGTH as int, r@.user),
            spec_truncated_to(tty@, MAX_USER_TTY_LENGTH as int, r@.tty),
            (match r@.remote {
                Some(x) => x.len() > 0 && spec_truncated_to(host@, MAX_REMOTE_LENGTH as int, x),
                None => spec_truncated_to(host@, MAX_REMOTE_LENGTH as int, Seq::<char>::empty()),
            }),
    {
        let user_t: String = truncate_field(user, MAX_USER_TTY_LENGTH);
        let tty_t: String = truncate_field(tty, MAX_USER_TTY_LENGTH);
        let host_t: String = truncate_field(host, MAX_REMOTE_LENGTH);
        let remote: Option<String> = if host_t.as_str().is_empty() {
            proof {
                assert(host_t@ =~= Seq::<char>::empty());
            }
            None
        } else {
            Some(host_t)
        };
        Session {
            host: None,
            pid,
            login_time,
            user: user_t,
            tty: tty_t,
            remote,
            active: is_user_process && is_active,
        }
    }
}

/// What it means for `r` to be `orig` cut down to at most `max` encoded
/// bytes: `r` is a byte-prefix of `orig` within the bound, it is `orig`
/// itself when `orig` already fits, and no longer prefix within the
/// bound would have been well-formed UTF-8.
pub open spec fn spec_truncated_to(orig: Seq<char>, max: int, r: Seq<char>) -> bool {
    &&& encode_utf8(r).len() <= max
    &&& encode_utf8(r) == encode_utf8(orig).subrange(0, encode_utf8(r).len() as int)
    &&& (encode_utf8(orig).len() <= max ==> r == orig)
    &&& (forall|m: int|
        encode_utf8(r).len() < m <= max && m <= encode_utf8(orig).len()
            ==> !vstd::utf8::valid_utf8(encode_utf8(orig).subrange(0, m)))
}

/// Cuts a string down to at most `max` encoded bytes, at a character
/// boundary.
fn truncate_field(s: &str, max: usize) -> (r: String)
    ensures
        spec_truncated_to(s@, max as int, r@),
{
    let bytes: &[u8] = s.as_bytes();
    let total: usize = bytes.len();
    let mut n: usize = if total < max {
        total
    } else {
        max
    };
    loop
        invariant
            n <= total,
            n <= max,
            total == encode_utf8(s@).len(),
            bytes@ == encode_utf8(s@),
            forall|m: int|
                n < m <= max && m <= total ==> !vstd::utf8::valid_utf8(
                    #[trigger] encode_utf8(s@).subrange(0, m),
                ),
        decreases n,
    {
        let prefix: &[u8] = vstd::slice::slice_subrange(bytes, 0, n);
        match crate::parse::utf8_field(prefix) {
            Some(t) => {
                proof {
                    vstd::utf8::decode_utf8_encode_utf8(prefix@);
                    if total <= max {
                        vstd::utf8::encode_utf8_valid_utf8(s@);
                        if n < total {
                            assert(!vstd::utf8::valid_utf8(
                                encode_utf8(s@).subrange(0, total as int),
                            ));
                            assert(encode_utf8(s@).subrange(0, total as int) =~= encode_utf8(s@));
                        }
                        assert(n == total);
                        assert(prefix@ =~= encode_utf8(s@));
                        vstd::utf8::encode_utf8_decode_utf8(s@);
                    }
                }
                return t.to_owned();
            },
            None => {
                proof {
                    assert(prefix@ == encode_utf8(s@).subrange(0, n as int));
                }
            },
        }
        if n == 0 {
            proof {
                assert(encode_utf8(s@).subrange(0, 0) =~= Seq::<u8>::empty());
                assert(vstd::utf8::valid_utf8(Seq::<u8>::empty()));
                assert(false);
            }
            return String::new();
        }
        n = n - 1;
    }
}

/// The models of a run of sessions, in order.
pub open spec fn sessions_view(v: Seq<Session>) -> Seq<SessionV> {
    Seq::new(v.len(), |i: int| v[i]@)
}

/// An ordered sequence of sessions, in the order they were gathered or
/// decoded.
#[derive(Debug)]
pub struct SessionCollection {
    inner: Vec<Session>,
}

impl View for SessionCollection {
    type V = Seq<SessionV>;

    closed spec fn view(&self) -> Seq<SessionV> {
        sessions_view(self.inner@)
    }
}

impl SessionCollection {
    /// A collection with no sessions.
    pub fn get_empty() -> (r: Self)
        ensures
            r@ =~= Seq::<SessionV>::empty(),
    {
        Self { inner: Vec::new() }
    }

    /// A collection holding exactly the given sessions, in order.
    pub fn from_vec(sessions: Vec<Session>) -> (r: Self)
        ensures
            r@ == sessions_view(sessions@),
    {
        Self { inner: sessions }
    }

    /// Hands the sessions out, in order.
    pub fn into_vec(self) -> (r: Vec<Session>)
        ensures
            self@ == sessions_view(r@),
    {
        self.inner
    }

    /// Encodes the collection into one datagram payload, or reports the
    /// first bound the data violates; a refused collection produces no
    /// payload at all.
    pub fn to_udp_payload(&self) -> (r: Result<Vec<u8>, EncodeDecodeError>)
        ensures
            match spec_encode(self@) {
                Ok(b) => r is Ok && r->Ok_0@ == b,
                Err(e) => r is Err && r->Err_0 == e,
            },
    {
        let ghost ss = self@;
        let n: usize = self.inner.len();
        if n > 0xffff {
            return Err(EncodeDecodeError::InvalidPayloadLength(n));
        }
        let mut bytes: Vec<u8> = Vec::new();
        bytes.push(0x57u8);
        bytes.push(0x48u8);
        bytes.push(0x52u8);
        bytes.push(0x44u8);
        push_u16_be(&mut bytes, n as u16);
        assert(bytes@.subrange(0, 6) =~= spec_magic() + u16_be_bytes(n as u16));
        assert(bytes@.skip(6) =~= Seq::<u8>::empty());
        proof {
            assert(ss.skip(0) =~= ss);
            match spec_encode_entries(ss) {
                Ok(rest) => {
                    assert(bytes@.skip(6) + rest =~= rest);
                },
                Err(e) => {},
            }
        }
        let mut i: usize = 0;
        while i < n
            invariant
                i <= n,
                n == self.inner@.len(),
                n <= 0xffff,
                ss == self@,
                bytes@.len() >= 6,
                bytes@.subrange(0, 6) == spec_magic() + u16_be_bytes(n as u16),
                (match spec_encode_entries(ss.skip(i as int)) {
                    Ok(rest) => spec_encode_entries(ss) == Ok::<Seq<u8>, EncodeDecodeError>(
                        bytes@.skip(6) + rest,
                    ),
                    Err(e) => spec_encode_entries(ss) == Err::<Seq<u8>, EncodeDecodeError>(e),
                }),
            decreases n - i,
        {
            let item = &self.inner[i];
            proof {
                assert(ss[i as int] == item@);
                assert(ss.skip(i as int)[0] == ss[i as int]);
                assert(ss.skip(i as int).drop_first() =~= ss.skip(i as int + 1));
            }
            let user_len: usize = item.user.as_str().as_bytes().len();
            if user_len > MAX_USER_TTY_LENGTH {
                let over: u32 = #[verifier::truncate] (user_len as u32);
                proof {
                    let e = EncodeDecodeError::StringSizeLimitExceeded(over, MAX_USER_TTY_LENGTH);
                    assert(spec_entry_error(ss[i as int]) == Some(e));
                    assert(spec_encode_entries(ss.skip(i as int)) == Err::<
                        Seq<u8>,
                        EncodeDecodeError,
                    >(e));
                    assert(spec_encode(ss) == Err::<Seq<u8>, EncodeDecodeError>(e));
                }
                return Err(EncodeDecodeError::StringSizeLimitExceeded(over, MAX_USER_TTY_LENGTH));
            }
            let tty_len: usize = item.tty.as_str().as_bytes().len();
            if tty_len > MAX_USER_TTY_LENGTH {
                let over: u32 = #[verifier::truncate] (tty_len as u32);
                proof {
                    let e = EncodeDecodeError::StringSizeLimitExceeded(over, MAX_USER_TTY_LENGTH);
                    assert(spec_entry_error(ss[i as int]) == Some(e));
                    assert(spec_encode_entries(ss.skip(i as int)) == Err::<
                        Seq<u8>,
                        EncodeDecodeError,
                    >(e));
                    assert(spec_encode(ss) == Err::<Seq<u8>, EncodeDecodeError>(e));
                }
                return Err(EncodeDecodeError::StringSizeLimitExceeded(over, MAX_USER_TTY_LENGTH));
            }
            match &item.remote {
                Some(r) => {
                    let remote_len: usize = r.as_str().as_bytes().len();
                    if remote_len > MAX_REMOTE_LENGTH {
                        let over: u32 = #[verifier::truncate] (remote_len as u32);
                        proof {
                            let e = EncodeDecodeError::StringSizeLimitExceeded(
                                over,
                                MAX_REMOTE_LENGTH,
                            );
                            assert(spec_entry_error(ss[i as int]) == Some(e));
                            assert(spec_encode_entries(ss.skip(i as int)) == Err::<
                                Seq<u8>,
                                EncodeDecodeError,
                            >(e));
                            assert(spec_encode(ss) == Err::<Seq<u8>, EncodeDecodeError>(e));
                        }
                        return Err(
                            EncodeDecodeError::StringSizeLimitExceeded(over, MAX_REMOTE_LENGTH),
                        );
                    }
                },
                None => {},
            }
            let entry: Vec<u8> = item.to_udp_payload();
            if entry.len() > MAX_ENTRY_LENGTH {
                let over: usize = entry.len();
                proof {
                    let e = EncodeDecodeError::InvalidEntryLength(over);
                    assert(spec_entry_error(ss[i as int]) == Some(e));
                    assert(spec_encode_entries(ss.skip(i as int)) == Err::<
                        Seq<u8>,
                        EncodeDecodeError,
                    >(e));
                    assert(spec_encode(ss) == Err::<Seq<u8>, EncodeDecodeError>(e));
                }
                return Err(EncodeDecodeError::InvalidEntryLength(over));
            }
            proof {
                assert(spec_entry_error(ss[i as int]) is None);
            }
            let ghost before = bytes@;
            bytes.extend_from_slice(entry.as_slice());
            proof {
                assert(bytes@.subrange(0, 6) =~= before.subrange(0, 6));
                assert(bytes@.skip(6) =~= before.skip(6) + entry@);
                match spec_encode_entries(ss.skip(i as int + 1)) {
                    Ok(rest) => {
                        assert(before.skip(6) + (spec_encode_entry(ss[i as int]) + rest) =~= bytes@.skip(
                        6) + rest);
                    },
                    Err(e) => {},
                }
            }
            i = i + 1;
        }
        proof {
            assert(ss.skip(n as int) =~= Seq::<SessionV>::empty());
            assert(bytes@.skip(6) + Seq::<u8>::empty() =~= bytes@.skip(6));
            assert(spec_encode_entries(ss) == Ok::<Seq<u8>, EncodeDecodeError>(bytes@.skip(6)));
        }
        if bytes.len() > MAX_PAYLOAD_LENGTH {
            Err(EncodeDecodeError::InvalidPayloadLength(bytes.len()))
        } else {
            proof {
                assert(bytes@ =~= bytes@.subrange(0, 6) + bytes@.skip(6));
                assert(bytes@ == spec_magic() + u16_be_bytes(n as u16) + bytes@.skip(6));
            }
            Ok(bytes)
        }
    }

    /// Decodes one whole payload, labeling every session with the given
    /// host. All or nothing: any violation anywhere yields that error and
    /// no sessions.
    pub fn from_udp_payload(buffer: &[u8], host: &str) -> (r: Result<SessionCollection, WhereError>)
        ensures
            match spec_decode(buffer@, host@) {
                Ok(ss) => r is Ok && r->Ok_0@ == ss,
                Err(e) => r is Err && r->Err_0 == e,
            },
    {
        let ghost b = buffer@;
        let ghost h = host@;
        let mut cursor = PayloadCursor { buf: buffer, pos: 0 };
        let magic: Vec<u8> = match read_field_dynamic(&mut cursor, 4) {
            Ok(v) => v,
            Err(e) => {
                return Err(e);
            },
        };
        if !(magic[0] == 0x57 && magic[1] == 0x48 && magic[2] == 0x52 && magic[3] == 0x44) {
            proof {
                assert(magic@ == b.subrange(0, 4));
                assert(magic@[0] == b[0] && magic@[1] == b[1] && magic@[2] == b[2] && magic@[3]
                    == b[3]);
                assert(b.subrange(0, 4) != spec_magic());
            }
            return Err(
                WhereError::EncodeDecodeError(
                    EncodeDecodeError::BadMagic([magic[0], magic[1], magic[2], magic[3]]),
                ),
            );
        }
        proof {
            assert(b.subrange(0, 4) =~= spec_magic());
        }
        let n: u16 = match read_u16_field(&mut cursor) {
            Ok(v) => v,
            Err(e) => {
                return Err(e);
            },
        };
        let n_us: usize = n as usize;
        let ghost p0 = cursor.pos as int;
        let mut inner: Vec<Session> = Vec::new();
        proof {
            match spec_decode_entries(b, p0, n_us as int, h) {
                Ok((rest, pf)) => {
                    assert(sessions_view(inner@) + rest =~= rest);
                },
                Err(e) => {},
            }
        }
        let mut i: usize = 0;
        while i < n_us
            invariant
                i <= n_us,
                cursor.buf@ == b,
                b == buffer@,
                h == host@,
                inner@.len() == i,
                b.len() >= 4,
                b.subrange(0, 4) == spec_magic(),
                n_us == n as usize,
                spec_read_u16(b, 4) == Ok::<(u16, int), WhereError>((n, p0)),
                (match spec_decode_entries(b, cursor.pos as int, (n_us - i) as int, h) {
                    Ok((rest, pf)) => spec_decode_entries(b, p0, n_us as int, h) == Ok::<
                        (Seq<SessionV>, int),
                        WhereError,
                    >((sessions_view(inner@) + rest, pf)),
                    Err(e) => spec_decode_entries(b, p0, n_us as int, h) == Err::<
                        (Seq<SessionV>, int),
                        WhereError,
                    >(e),
                }),
            decreases n_us - i,
        {
            let ghost pos_before = cursor.pos as int;
            let ghost views_before = sessions_view(inner@);
            match Session::from_udp_payload(&mut cursor, host) {
                Ok(s) => {
                    proof {
                        match spec_decode_entries(b, cursor.pos as int, (n_us - i - 1) as int, h) {
                            Ok((rest, pf)) => {
                                assert(views_before + (seq![s@] + rest) =~= (views_before.push(s@))
                                    + rest);
                            },
                            Err(e) => {},
                        }
                    }
                    inner.push(s);
                    proof {
                        assert(sessions_view(inner@) =~= views_before.push(s@));
                    }
                },
                Err(e) => {
                    proof {
                        assert(spec_decode_entries(b, pos_before, (n_us - i) as int, h) == Err::<
                            (Seq<SessionV>, int),
                            WhereError,
                        >(e));
                    }
                    return Err(e);
                },
            }
            i = i + 1;
        }
        proof {
            assert(sessions_view(inner@) + Seq::<SessionV>::empty() =~= sessions_view(inner@));
        }
        Ok(SessionCollection { inner })
    }
}

} // verus!
