//! Summary-table computations: display ordering and column sizing.
use whrd::ui::{host_column_width, include_row, pid_column_width, pid_width, remote_column_width,
    sort_sessions, tty_column_width, user_column_width};
use whrd::Session;

fn session(pid: i32, login_time: i64, active: bool) -> Session {
    Session {
        host: Some("h".to_string()),
        pid,
        login_time,
        user: "u".to_string(),
        tty: "t".to_string(),
        remote: None,
        active,
    }
}

#[test]
fn active_sessions_come_first_oldest_login_first() {
    let sessions = vec![
        session(1, 500, false),
        session(2, 100, true),
        session(3, 50, false),
        session(4, 900, true),
    ];
    let sorted = sort_sessions(sessions);
    let order: Vec<i32> = sorted.iter().map(|s| s.pid).collect();
    assert_eq!(order, vec![2, 4, 3, 1]);
}

#[test]
fn sorting_keeps_every_session() {
    let sessions = vec![session(1, 3, true), session(2, 3, true), session(3, 1, false)];
    let sorted = sort_sessions(sessions);
    let mut pids: Vec<i32> = sorted.iter().map(|s| s.pid).collect();
    pids.sort();
    assert_eq!(pids, vec![1, 2, 3]);
}

#[test]
fn pid_widths_count_digits_and_sign() {
    assert_eq!(pid_width(0), 1);
    assert_eq!(pid_width(7), 1);
    assert_eq!(pid_width(10), 2);
    assert_eq!(pid_width(-5), 2);
    assert_eq!(pid_width(999), 3);
    assert_eq!(pid_width(2147483647), 10);
    assert_eq!(pid_width(-2147483648), 11);
}

#[test]
fn columns_grow_to_the_widest_cell() {
    let mut a = session(12345, 0, true);
    a.user = "someone-long".to_string();
    a.tty = "pts/11".to_string();
    a.host = Some("farawayhost".to_string());
    a.remote = Some("198.51.100.77".to_string());
    let b = session(1, 0, true);
    let sessions = vec![a, b];
    assert_eq!(host_column_width(&sessions, 5), 11);
    assert_eq!(remote_column_width(&sessions, 7), 13);
    assert_eq!(user_column_width(&sessions, 5), 12);
    assert_eq!(tty_column_width(&sessions, 4), 6);
    assert_eq!(pid_column_width(&sessions, 4), 5);
}

#[test]
fn column_floors_hold_for_narrow_data() {
    let sessions = vec![session(1, 0, true)];
    assert_eq!(host_column_width(&sessions, 5), 5);
    assert_eq!(remote_column_width(&sessions, 7), 7);
    assert_eq!(user_column_width(&sessions, 5), 5);
    assert_eq!(tty_column_width(&sessions, 4), 4);
    assert_eq!(pid_column_width(&sessions, 4), 4);
}

#[test]
fn inactive_rows_show_only_when_asked() {
    assert!(include_row(true, false));
    assert!(include_row(true, true));
    assert!(include_row(false, true));
    assert!(!include_row(false, false));
}
