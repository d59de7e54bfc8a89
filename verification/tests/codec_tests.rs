//! Wire codec behavior: round trips, exact byte layout, and each way a
//! payload can be refused.
use whrd::error::{EncodeDecodeError, WhereError};
use whrd::{Session, SessionCollection, MAX_ENTRY_LENGTH, MAX_PAYLOAD_LENGTH, WHERED_MAGIC};

fn session(
    pid: i32,
    login_time: i64,
    user: &str,
    tty: &str,
    remote: Option<&str>,
    active: bool,
) -> Session {
    Session {
        host: None,
        pid,
        login_time,
        user: user.to_string(),
        tty: tty.to_string(),
        remote: remote.map(|r| r.to_string()),
        active,
    }
}

#[test]
fn encodes_exact_bytes_for_one_entry() {
    let c = SessionCollection::from_vec(vec![session(1, 2, "u", "t", None, true)]);
    let bytes = c.to_udp_payload().unwrap();
    let expected: Vec<u8> = vec![
        0x57, 0x48, 0x52, 0x44, // magic
        0x00, 0x01, // entry count
        0x00, 0x00, 0x00, 0x01, // pid
        0x00, 0x00, 0x00, 0x00, 0x00, 0x00, 0x00, 0x02, // login time
        0x00, 0x00, 0x00, 0x01, 0x75, // user "u"
        0x00, 0x00, 0x00, 0x01, 0x74, // tty "t"
        0x00, // no remote
        0x01, // active
    ];
    assert_eq!(bytes, expected);
}

#[test]
fn round_trip_restores_sessions_and_labels_them() {
    let sessions = vec![
        session(4242, 1700000000, "alice", "pts/0", Some("203.0.113.9"), true),
        session(-7, -15, "bob", "tty2", None, false),
    ];
    let bytes = SessionCollection::from_vec(sessions).to_udp_payload().unwrap();
    let decoded = SessionCollection::from_udp_payload(&bytes, "mylabel").unwrap().into_vec();
    assert_eq!(decoded.len(), 2);
    assert_eq!(decoded[0].host.as_deref(), Some("mylabel"));
    assert_eq!(decoded[0].pid, 4242);
    assert_eq!(decoded[0].login_time, 1700000000);
    assert_eq!(decoded[0].user, "alice");
    assert_eq!(decoded[0].tty, "pts/0");
    assert_eq!(decoded[0].remote.as_deref(), Some("203.0.113.9"));
    assert!(decoded[0].active);
    assert_eq!(decoded[1].host.as_deref(), Some("mylabel"));
    assert_eq!(decoded[1].pid, -7);
    assert_eq!(decoded[1].login_time, -15);
    assert_eq!(decoded[1].user, "bob");
    assert_eq!(decoded[1].tty, "tty2");
    assert_eq!(decoded[1].remote, None);
    assert!(!decoded[1].active);
}

#[test]
fn round_trip_of_empty_collection() {
    let bytes = SessionCollection::get_empty().to_udp_payload().unwrap();
    assert_eq!(bytes, vec![0x57, 0x48, 0x52, 0x44, 0x00, 0x00]);
    let decoded = SessionCollection::from_udp_payload(&bytes, "x").unwrap().into_vec();
    assert!(decoded.is_empty());
}

#[test]
fn round_trip_keeps_multibyte_utf8() {
    let sessions = vec![session(1, 0, "ユーザ", "tty", Some("ホスト"), true)];
    let bytes = SessionCollection::from_vec(sessions).to_udp_payload().unwrap();
    let decoded = SessionCollection::from_udp_payload(&bytes, "l").unwrap().into_vec();
    assert_eq!(decoded[0].user, "ユーザ");
    assert_eq!(decoded[0].remote.as_deref(), Some("ホスト"));
}

#[test]
fn altered_magic_is_rejected() {
    let mut bytes =
        SessionCollection::from_vec(vec![session(1, 2, "u", "t", None, true)])
            .to_udp_payload()
            .unwrap();
    bytes[0] ^= 0xff;
    let err = SessionCollection::from_udp_payload(&bytes, "x").unwrap_err();
    match err {
        WhereError::EncodeDecodeError(EncodeDecodeError::BadMagic(found)) => {
            assert_eq!(found, [0x57 ^ 0xff, 0x48, 0x52, 0x44]);
        }
        other => panic!("expected bad magic, got {:?}", other),
    }
}

#[test]
fn short_buffer_fails_before_magic_comparison() {
    let err = SessionCollection::from_udp_payload(&[0x57, 0x48], "x").unwrap_err();
    assert!(matches!(err, WhereError::IOError));
}

#[test]
fn oversized_user_fails_encode() {
    let long = "a".repeat(33);
    let c = SessionCollection::from_vec(vec![session(1, 2, &long, "t", None, true)]);
    let err = c.to_udp_payload().unwrap_err();
    assert!(matches!(err, EncodeDecodeError::StringSizeLimitExceeded(33, 32)));
}

#[test]
fn oversized_tty_fails_encode() {
    let long = "b".repeat(40);
    let c = SessionCollection::from_vec(vec![session(1, 2, "u", &long, None, true)]);
    let err = c.to_udp_payload().unwrap_err();
    assert!(matches!(err, EncodeDecodeError::StringSizeLimitExceeded(40, 32)));
}

#[test]
fn oversized_remote_fails_encode() {
    let long = "c".repeat(65);
    let c = SessionCollection::from_vec(vec![session(1, 2, "u", "t", Some(&long), true)]);
    let err = c.to_udp_payload().unwrap_err();
    assert!(matches!(err, EncodeDecodeError::StringSizeLimitExceeded(65, 64)));
}

#[test]
fn maximal_fields_overflow_the_entry_bound() {
    // 32 + 32 + 64 bytes of text plus 26 bytes of fixed-width overhead is
    // one byte over the 153-byte entry bound.
    let user = "u".repeat(32);
    let tty = "t".repeat(32);
    let remote = "r".repeat(64);
    let c = SessionCollection::from_vec(vec![session(1, 2, &user, &tty, Some(&remote), true)]);
    let err = c.to_udp_payload().unwrap_err();
    assert_eq!(MAX_ENTRY_LENGTH, 153);
    assert!(matches!(err, EncodeDecodeError::InvalidEntryLength(154)));
}

#[test]
fn overlong_payload_fails_encode() {
    // 800 entries of 86 encoded bytes each overflow the 65,501-byte
    // datagram capacity.
    let user = "u".repeat(32);
    let tty = "t".repeat(32);
    let mut sessions = Vec::new();
    for _ in 0..800 {
        sessions.push(session(1, 2, &user, &tty, None, true));
    }
    let err = SessionCollection::from_vec(sessions).to_udp_payload().unwrap_err();
    match err {
        EncodeDecodeError::InvalidPayloadLength(n) => {
            assert_eq!(n, 6 + 800 * 86);
            assert!(n > MAX_PAYLOAD_LENGTH);
        }
        other => panic!("expected payload length error, got {:?}", other),
    }
}

/// A valid header for `n` entries followed by the given entry bytes.
fn payload_with(n: u16, entry_bytes: &[u8]) -> Vec<u8> {
    let mut bytes = WHERED_MAGIC.to_vec();
    bytes.extend_from_slice(&n.to_be_bytes());
    bytes.extend_from_slice(entry_bytes);
    bytes
}

#[test]
fn oversized_declared_length_beats_truncation() {
    // The user field declares 33 bytes, over its 32-byte ceiling, and the
    // buffer ends right after the declaration: the ceiling error must be
    // reported, not a buffer underrun.
    let mut entry = Vec::new();
    entry.extend_from_slice(&[0, 0, 0, 1]); // pid
    entry.extend_from_slice(&[0, 0, 0, 0, 0, 0, 0, 2]); // login time
    entry.extend_from_slice(&[0, 0, 0, 33]); // user length over ceiling
    let err = SessionCollection::from_udp_payload(&payload_with(1, &entry), "x").unwrap_err();
    assert!(matches!(
        err,
        WhereError::EncodeDecodeError(EncodeDecodeError::StringSizeLimitExceeded(33, 32))
    ));
}

#[test]
fn truncated_string_is_an_underrun() {
    // The user field declares 4 bytes, within its ceiling, but only 1
    // follows: this one is an underrun.
    let mut entry = Vec::new();
    entry.extend_from_slice(&[0, 0, 0, 1]);
    entry.extend_from_slice(&[0, 0, 0, 0, 0, 0, 0, 2]);
    entry.extend_from_slice(&[0, 0, 0, 4, 0x61]);
    let err = SessionCollection::from_udp_payload(&payload_with(1, &entry), "x").unwrap_err();
    assert!(matches!(err, WhereError::IOError));
}

#[test]
fn invalid_utf8_fails_decode() {
    let mut entry = Vec::new();
    entry.extend_from_slice(&[0, 0, 0, 1]);
    entry.extend_from_slice(&[0, 0, 0, 0, 0, 0, 0, 2]);
    entry.extend_from_slice(&[0, 0, 0, 1, 0xff]); // user: not UTF-8
    entry.extend_from_slice(&[0, 0, 0, 1, 0x74]); // tty
    entry.push(0);
    entry.push(1);
    let err = SessionCollection::from_udp_payload(&payload_with(1, &entry), "x").unwrap_err();
    assert!(matches!(
        err,
        WhereError::EncodeDecodeError(EncodeDecodeError::StringDecodeError)
    ));
}

#[test]
fn flag_byte_two_is_not_true() {
    // A remote-presence flag of 2 is a format violation, not truthiness.
    let mut entry = Vec::new();
    entry.extend_from_slice(&[0, 0, 0, 1]);
    entry.extend_from_slice(&[0, 0, 0, 0, 0, 0, 0, 2]);
    entry.extend_from_slice(&[0, 0, 0, 1, 0x75]);
    entry.extend_from_slice(&[0, 0, 0, 1, 0x74]);
    entry.push(2); // has_remote: neither 0 nor 1
    entry.push(1);
    let err = SessionCollection::from_udp_payload(&payload_with(1, &entry), "x").unwrap_err();
    assert!(matches!(
        err,
        WhereError::EncodeDecodeError(EncodeDecodeError::NonbinaryBoolean)
    ));
}

#[test]
fn active_flag_byte_two_is_not_true() {
    let mut entry = Vec::new();
    entry.extend_from_slice(&[0, 0, 0, 1]);
    entry.extend_from_slice(&[0, 0, 0, 0, 0, 0, 0, 2]);
    entry.extend_from_slice(&[0, 0, 0, 1, 0x75]);
    entry.extend_from_slice(&[0, 0, 0, 1, 0x74]);
    entry.push(0);
    entry.push(2); // active: neither 0 nor 1
    let err = SessionCollection::from_udp_payload(&payload_with(1, &entry), "x").unwrap_err();
    assert!(matches!(
        err,
        WhereError::EncodeDecodeError(EncodeDecodeError::NonbinaryBoolean)
    ));
}

#[test]
fn tagged_but_empty_remote_fails_decode() {
    let mut entry = Vec::new();
    entry.extend_from_slice(&[0, 0, 0, 1]);
    entry.extend_from_slice(&[0, 0, 0, 0, 0, 0, 0, 2]);
    entry.extend_from_slice(&[0, 0, 0, 1, 0x75]);
    entry.extend_from_slice(&[0, 0, 0, 1, 0x74]);
    entry.push(1); // remote present...
    entry.extend_from_slice(&[0, 0, 0, 0]); // ...but empty
    entry.push(1);
    let err = SessionCollection::from_udp_payload(&payload_with(1, &entry), "x").unwrap_err();
    assert!(matches!(
        err,
        WhereError::EncodeDecodeError(EncodeDecodeError::EmptyRemote)
    ));
}

#[test]
fn count_past_buffer_is_an_underrun() {
    // The header promises two entries but the buffer holds none.
    let err = SessionCollection::from_udp_payload(&payload_with(2, &[]), "x").unwrap_err();
    assert!(matches!(err, WhereError::IOError));
}

#[test]
fn trailing_bytes_are_ignored() {
    // A datagram buffer is handed over at its full fixed size; what
    // follows the declared entries does not matter.
    let mut bytes =
        SessionCollection::from_vec(vec![session(9, 9, "u", "t", None, false)])
            .to_udp_payload()
            .unwrap();
    bytes.extend_from_slice(&[0u8; 64]);
    let decoded = SessionCollection::from_udp_payload(&bytes, "x").unwrap().into_vec();
    assert_eq!(decoded.len(), 1);
    assert_eq!(decoded[0].pid, 9);
}

#[test]
fn error_conditions_have_readable_names() {
    assert_eq!(
        EncodeDecodeError::NonbinaryBoolean.message(),
        "boolean value is not 0 or 1"
    );
    assert_eq!(
        EncodeDecodeError::EmptyRemote.message(),
        "remote tag set but no remote host is present"
    );
    assert_eq!(WhereError::IOError.message(), "input/output error");
    assert_eq!(
        WhereError::TimedOut("a".to_string(), "b".to_string(), 1, 2).message(),
        "timed out waiting for data"
    );
}
