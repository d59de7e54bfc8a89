//! Client behavior: the retry state machine against cooperative and
//! silent targets, the configuration merge, and failsafe aggregation.
use whrd::config::{Config, GlobalConfig, Server, TargetSettings};
use whrd::error::WhereError;
use whrd::servers::{aggregate, client_action, client_step, ClientAction, ClientEvent,
    ClientState, TargetOutcome};
use whrd::{Session, SessionCollection};

fn settings(label: &str, timeout: u64, max_retries: usize) -> TargetSettings {
    TargetSettings { label: label.to_string(), timeout, max_retries, failsafe: false }
}

fn session(pid: i32, user: &str) -> Session {
    Session {
        host: None,
        pid,
        login_time: 0,
        user: user.to_string(),
        tty: "tty0".to_string(),
        remote: None,
        active: true,
    }
}

#[test]
fn silent_target_gets_exactly_max_retries_sends_then_timeout() {
    let s = settings("box", 2000, 3);
    let mut state = ClientState::Resolving { retried_with_port: false };
    assert!(matches!(client_action(&state), ClientAction::Resolve));
    state = client_step(state, ClientEvent::Resolved, "box:15", "192.0.2.1:15", &s);
    assert!(matches!(client_action(&state), ClientAction::Bind));
    state = client_step(state, ClientEvent::BoundOk, "box:15", "192.0.2.1:15", &s);

    let mut sends = 0;
    loop {
        match client_action(&state) {
            ClientAction::Send => {
                sends += 1;
                state = client_step(state, ClientEvent::SentOk, "box:15", "192.0.2.1:15", &s);
            }
            ClientAction::Receive => {
                state =
                    client_step(state, ClientEvent::RecvTimedOut, "box:15", "192.0.2.1:15", &s);
            }
            ClientAction::Stop => break,
            other => panic!("unexpected action {:?}", action_name(&other)),
        }
    }
    assert_eq!(sends, 3);
    match state {
        ClientState::Exhausted(WhereError::TimedOut(endpoint, address, attempts, timeout)) => {
            assert_eq!(endpoint, "box:15");
            assert_eq!(address, "192.0.2.1:15");
            assert_eq!(attempts, 3);
            assert_eq!(timeout, 2000);
        }
        _ => panic!("expected exhaustion with a timeout condition"),
    }
}

fn action_name(a: &ClientAction) -> &'static str {
    match a {
        ClientAction::Resolve => "resolve",
        ClientAction::ResolveWithPort => "resolve with port",
        ClientAction::Bind => "bind",
        ClientAction::Send => "send",
        ClientAction::Receive => "receive",
        ClientAction::Stop => "stop",
    }
}

#[test]
fn zero_retries_exhausts_without_sending() {
    let s = settings("box", 500, 0);
    let mut state = ClientState::Resolving { retried_with_port: false };
    state = client_step(state, ClientEvent::Resolved, "box", "192.0.2.1:15", &s);
    state = client_step(state, ClientEvent::BoundOk, "box", "192.0.2.1:15", &s);
    match state {
        ClientState::Exhausted(WhereError::TimedOut(_, _, attempts, timeout)) => {
            assert_eq!(attempts, 0);
            assert_eq!(timeout, 500);
        }
        _ => panic!("expected immediate exhaustion"),
    }
}

#[test]
fn reply_decodes_and_succeeds_with_label() {
    let s = settings("east", 2000, 3);
    let bytes = SessionCollection::from_vec(vec![session(7, "root")]).to_udp_payload().unwrap();
    let mut state = ClientState::Sending { sent: 0 };
    state = client_step(state, ClientEvent::SentOk, "east:15", "192.0.2.2:15", &s);
    state = client_step(state, ClientEvent::Reply(bytes), "east:15", "192.0.2.2:15", &s);
    match state {
        ClientState::Succeeded(collection) => {
            let got = collection.into_vec();
            assert_eq!(got.len(), 1);
            assert_eq!(got[0].host.as_deref(), Some("east"));
            assert_eq!(got[0].pid, 7);
            assert_eq!(got[0].user, "root");
        }
        _ => panic!("expected success"),
    }
}

#[test]
fn garbled_reply_is_fatal_not_retried() {
    let s = settings("east", 2000, 3);
    let mut state = ClientState::Awaiting { sent: 1 };
    state = client_step(
        state,
        ClientEvent::Reply(vec![1, 2, 3, 4, 0, 0]),
        "east:15",
        "192.0.2.2:15",
        &s,
    );
    assert!(matches!(state, ClientState::Fatal(_)));
    assert!(matches!(client_action(&state), ClientAction::Stop));
}

#[test]
fn resolution_retries_with_port_then_goes_fatal() {
    let s = settings("box", 2000, 3);
    let mut state = ClientState::Resolving { retried_with_port: false };
    state = client_step(state, ClientEvent::ResolveFailed, "box", "", &s);
    assert!(matches!(client_action(&state), ClientAction::ResolveWithPort));
    state = client_step(state, ClientEvent::ResolveFailed, "box", "", &s);
    assert!(matches!(state, ClientState::Fatal(WhereError::IOError)));
}

#[test]
fn bind_failure_is_fatal() {
    let s = settings("box", 2000, 3);
    let state = client_step(
        ClientState::Binding,
        ClientEvent::BindFailed,
        "box",
        "192.0.2.1:15",
        &s,
    );
    assert!(matches!(state, ClientState::Fatal(WhereError::IOError)));
}

#[test]
fn global_defaults_match_the_documented_values() {
    let g = GlobalConfig::default();
    assert_eq!(g.timeout, 2000);
    assert_eq!(g.max_retries, 3);
    assert!(g.include_inactive);
    assert_eq!(g.port, 15);
    assert_eq!(g.source, "Local");
    let c = Config::default();
    assert!(c.server.is_empty());
    assert_eq!(c.global.port, 15);
}

#[test]
fn settings_fall_back_to_global_defaults() {
    let g = GlobalConfig::default();
    let server = Server {
        endpoint: "host.example:19".to_string(),
        label: None,
        timeout: None,
        max_retries: None,
        failsafe: None,
    };
    let s = server.resolve_settings(&g);
    assert_eq!(s.label, "host.example:19");
    assert_eq!(s.timeout, 2000);
    assert_eq!(s.max_retries, 3);
    assert!(!s.failsafe);
}

#[test]
fn settings_overrides_win() {
    let g = GlobalConfig::default();
    let server = Server {
        endpoint: "host.example".to_string(),
        label: Some("east".to_string()),
        timeout: Some(50),
        max_retries: Some(9),
        failsafe: Some(true),
    };
    let s = server.resolve_settings(&g);
    assert_eq!(s.label, "east");
    assert_eq!(s.timeout, 50);
    assert_eq!(s.max_retries, 9);
    assert!(s.failsafe);
}

#[test]
fn failsafe_failure_is_skipped() {
    let outcomes = vec![
        TargetOutcome { failsafe: false, sessions: Some(vec![session(1, "a")]) },
        TargetOutcome { failsafe: true, sessions: None },
        TargetOutcome { failsafe: false, sessions: Some(vec![session(2, "b"), session(3, "c")]) },
    ];
    let merged = aggregate(outcomes).expect("run should complete");
    let pids: Vec<i32> = merged.iter().map(|s| s.pid).collect();
    assert_eq!(pids, vec![1, 2, 3]);
}

#[test]
fn non_failsafe_failure_aborts_the_run() {
    let outcomes = vec![
        TargetOutcome { failsafe: false, sessions: Some(vec![session(1, "a")]) },
        TargetOutcome { failsafe: false, sessions: None },
        TargetOutcome { failsafe: false, sessions: Some(vec![session(2, "b")]) },
    ];
    assert!(aggregate(outcomes).is_none());
}

#[test]
fn all_successes_aggregate_in_order() {
    let outcomes = vec![
        TargetOutcome { failsafe: true, sessions: Some(vec![session(5, "x")]) },
        TargetOutcome { failsafe: true, sessions: Some(vec![session(6, "y")]) },
    ];
    let merged = aggregate(outcomes).unwrap();
    let pids: Vec<i32> = merged.iter().map(|s| s.pid).collect();
    assert_eq!(pids, vec![5, 6]);
}
