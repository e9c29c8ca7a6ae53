use wireless_display::session::{Event, InvalidTransition, SessionManager, State};

#[test]
fn happy_path_transitions_are_legal() {
    let mut mgr = SessionManager::new();
    for step in [
        State::Discovering,
        State::Connecting,
        State::Negotiating,
        State::Streaming,
        State::Closed,
    ] {
        mgr.transition(step).expect("legal step");
    }
    assert_eq!(mgr.state(), State::Closed);
}

#[test]
fn recovery_path_is_legal() {
    let mut mgr = SessionManager::new();
    for step in [
        State::Connecting,
        State::Negotiating,
        State::Streaming,
        State::Recovering,
    ] {
        mgr.transition(step).unwrap();
    }
    mgr.transition(State::Streaming).unwrap();
    mgr.transition(State::Failed).unwrap();
    mgr.transition(State::Closed).unwrap();
}

#[test]
fn failure_and_retry_is_legal() {
    let mut mgr = SessionManager::new();
    mgr.transition(State::Connecting).unwrap();
    mgr.transition(State::Failed).unwrap();
    mgr.transition(State::Idle).unwrap();
}

#[test]
fn illegal_jumps_are_rejected_and_state_preserved() {
    let mut mgr = SessionManager::new();
    assert!(mgr.transition(State::Streaming).is_err());
    assert!(mgr.transition(State::Pairing).is_err());
    mgr.transition(State::Discovering).unwrap();
    assert!(mgr.transition(State::Streaming).is_err());
    assert_eq!(mgr.state(), State::Discovering);
}

#[test]
fn same_state_transition_is_rejected() {
    let mut mgr = SessionManager::new();
    assert!(mgr.transition(State::Idle).is_err());
}

#[test]
fn events_are_broadcast_to_subscribers() {
    let mut mgr = SessionManager::new();
    mgr.set_peer("Test Phone");
    mgr.transition(State::Discovering).unwrap();
    let events = mgr.take_events();
    match events.first().expect("peer event") {
        Event::PeerChanged { name } => assert_eq!(name, "Test Phone"),
        other => panic!("unexpected event {other:?}"),
    }
    match events.get(1).expect("state event") {
        Event::StateChanged { from, to } => {
            assert_eq!((*from, *to), (State::Idle, State::Discovering))
        }
        other => panic!("unexpected event {other:?}"),
    }
    assert!(mgr.take_events().is_empty(), "events are told once");
    assert_eq!(mgr.peer().as_deref(), Some("Test Phone"));
}

const ALL: [State; 9] = [
    State::Idle,
    State::Discovering,
    State::Pairing,
    State::Connecting,
    State::Negotiating,
    State::Streaming,
    State::Recovering,
    State::Failed,
    State::Closed,
];

/// A manager that was led to a state.
fn at(state: State) -> SessionManager {
    let mut mgr = SessionManager::default();
    let path: &[State] = match state {
        State::Idle => &[],
        State::Discovering => &[State::Discovering],
        State::Pairing => &[State::Discovering, State::Pairing],
        State::Connecting => &[State::Connecting],
        State::Negotiating => &[State::Connecting, State::Negotiating],
        State::Streaming => &[State::Connecting, State::Negotiating, State::Streaming],
        State::Recovering => &[State::Connecting, State::Recovering],
        State::Failed => &[State::Connecting, State::Failed],
        State::Closed => &[State::Closed],
    };
    for step in path {
        mgr.transition(*step).unwrap();
    }
    mgr
}

#[test]
fn every_session_recycles_to_idle() {
    for state in ALL {
        let mut mgr = at(state);
        assert_eq!(mgr.state(), state);
        mgr.end_run();
        assert!(matches!(mgr.state(), State::Closed | State::Idle | State::Failed));
        mgr.recycle();
        assert_eq!(mgr.state(), State::Idle);
        let mut mgr = at(state);
        mgr.recycle();
        assert_eq!(mgr.state(), State::Idle);
    }
}

#[test]
fn no_state_follows_itself_and_twenty_eight_moves_are_allowed() {
    let mut count = 0;
    for from in ALL {
        for to in ALL {
            let mut mgr = at(from);
            mgr.take_events();
            let moved = mgr.transition(to);
            assert_eq!(moved.is_ok(), State::allowed(from, to) && from != to);
            if moved.is_ok() {
                count += 1;
                assert_eq!(mgr.state(), to);
                assert_eq!(mgr.take_events(), vec![Event::StateChanged { from, to }]);
            } else {
                assert_eq!(moved, Err(InvalidTransition { from, to }));
                assert_eq!(mgr.state(), from);
                assert!(mgr.take_events().is_empty());
            }
        }
        assert!(!State::allowed(from, from));
    }
    assert_eq!(count, 28);
}

#[test]
fn states_are_shown_in_words() {
    let words: Vec<String> = ALL.iter().map(|s| s.to_string()).collect();
    assert_eq!(
        words,
        vec![
            "Idle",
            "Discovering devices",
            "Pairing",
            "Connecting",
            "Negotiating session",
            "Streaming",
            "Recovering connection",
            "Connection failed",
            "Disconnected",
        ]
    );
    let refused = InvalidTransition { from: State::Idle, to: State::Streaming };
    assert_eq!(
        refused.to_string(),
        "illegal session transition Idle -> Streaming"
    );
    let streaming: Vec<bool> = ALL.iter().map(|s| s.is_streaming()).collect();
    assert_eq!(
        streaming,
        vec![false, false, false, false, true, true, true, false, false]
    );
}
