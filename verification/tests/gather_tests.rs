//! Building sessions from gathered accounting values: field bounding at
//! character boundaries, the local-session rule, and the liveness rule.
use whrd::Session;

#[test]
fn gathered_fields_pass_through_when_in_bounds() {
    let s = Session::from_gathered("alice", "pts/3", "gateway", 321, 1700000001, true, true);
    assert!(s.host.is_none());
    assert_eq!(s.pid, 321);
    assert_eq!(s.login_time, 1700000001);
    assert_eq!(s.user, "alice");
    assert_eq!(s.tty, "pts/3");
    assert_eq!(s.remote.as_deref(), Some("gateway"));
    assert!(s.active);
}

#[test]
fn oversized_ascii_user_is_cut_to_the_ceiling() {
    let long = "a".repeat(40);
    let s = Session::from_gathered(&long, "tty", "", 1, 0, true, true);
    assert_eq!(s.user, "a".repeat(32));
}

#[test]
fn truncation_respects_character_boundaries() {
    // Eleven three-byte characters are 33 bytes; the cut lands between
    // characters, at 30 bytes, never inside one.
    let long = "あ".repeat(11);
    let s = Session::from_gathered(&long, "tty", "", 1, 0, true, true);
    assert_eq!(s.user, "あ".repeat(10));
    assert_eq!(s.user.len(), 30);
}

#[test]
fn empty_host_means_a_local_session() {
    let s = Session::from_gathered("u", "t", "", 1, 0, true, true);
    assert!(s.remote.is_none());
}

#[test]
fn oversized_host_is_cut_like_the_other_fields() {
    let long = "h".repeat(70);
    let s = Session::from_gathered("u", "t", &long, 1, 0, true, true);
    assert_eq!(s.remote.as_deref(), Some("h".repeat(64).as_str()));
}

#[test]
fn only_live_user_processes_count_as_active() {
    assert!(Session::from_gathered("u", "t", "", 1, 0, true, true).active);
    assert!(!Session::from_gathered("u", "t", "", 1, 0, true, false).active);
    assert!(!Session::from_gathered("u", "t", "", 1, 0, false, true).active);
}
