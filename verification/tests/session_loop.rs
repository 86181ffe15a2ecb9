//! The session state machine, driven event by event as the loop would.

use nostrdm::filter::{GIFT_WRAP_KIND, PRIVATE_DM_KIND, compose_envelope_filter, should_attempt_unwrap};
use nostrdm::keys::PublicKeyId;
use nostrdm::relays::{RelaySet, compose_topology};
use nostrdm::session::{Action, SessionConfig, SessionEvent, SessionState, session_run, session_step, send_failure_is_no_relays};
use nostrdm::unwrap::{UnwrappedMessage, is_relevant};

fn key(s: &str) -> PublicKeyId {
    PublicKeyId::new(s.to_string())
}

fn topology() -> RelaySet {
    compose_topology(&vec!["wss://dm.example".to_string()], &vec![], &vec![]).expect("composes")
}

fn config(one_shot: bool) -> SessionConfig {
    SessionConfig { local: key("npub1local"), peer: key("npub1peer"), relays: topology(), one_shot }
}

fn message(sender: &str, kind: u16, content: &str) -> UnwrappedMessage {
    UnwrappedMessage { sender: key(sender), kind, content: content.to_string(), timestamp: 1_700_000_000 }
}

/// Run a whole event sequence from `Running`, collecting every action.
fn run(cfg: &SessionConfig, events: Vec<SessionEvent>) -> (SessionState, Vec<Action>) {
    session_run(cfg, SessionState::Running, events)
}

#[test]
fn stepping_one_event_at_a_time_matches_the_whole_run() {
    let cfg = config(false);
    let events = vec![
        SessionEvent::InputLine("hi".to_string()),
        SessionEvent::SendSucceeded("hi".to_string()),
        SessionEvent::Cancelled,
    ];
    let mut state = SessionState::Running;
    let mut trace: Vec<Action> = Vec::new();
    for ev in events.clone() {
        let (next, mut acts) = session_step(&cfg, state, ev);
        state = next;
        trace.append(&mut acts);
    }
    assert_eq!((state, trace), run(&cfg, events));
}

fn unsubscribes(trace: &[Action]) -> usize {
    trace.iter().filter(|a| matches!(a, Action::Unsubscribe)).count()
}

#[test]
fn subscription_query_overmatches_on_purpose() {
    let q = compose_envelope_filter(&key("npub1local"));
    assert_eq!(q.kind, GIFT_WRAP_KIND);
    assert_eq!(q.recipient, key("npub1local"));
    assert_eq!(q.limit, 0);
    assert!(should_attempt_unwrap(GIFT_WRAP_KIND));
    assert!(!should_attempt_unwrap(PRIVATE_DM_KIND));
}

#[test]
fn two_stage_filter_surfaces_only_the_configured_peer() {
    let cfg = config(false);
    let from_peer = message("npub1peer", PRIVATE_DM_KIND, "hello from P");
    let from_third = message("npub1third", PRIVATE_DM_KIND, "hello from Q");
    let wrong_kind = message("npub1peer", GIFT_WRAP_KIND, "not a direct message");

    assert!(is_relevant(&from_peer, &cfg.peer));
    assert!(!is_relevant(&from_third, &cfg.peer));
    assert!(!is_relevant(&wrong_kind, &cfg.peer));

    let (state, trace) = run(
        &cfg,
        vec![
            SessionEvent::Unwrapped(from_third),
            SessionEvent::Unwrapped(from_peer),
            SessionEvent::UnwrapFailed,
            SessionEvent::Unwrapped(wrong_kind),
        ],
    );
    assert_eq!(state, SessionState::Running);
    assert_eq!(
        trace,
        vec![Action::ShowPeer("hello from P".to_string()), Action::Prompt]
    );
}

#[test]
fn one_shot_send_terminates_and_unsubscribes_once() {
    let cfg = config(true);
    let (state, trace) = run(
        &cfg,
        vec![
            SessionEvent::SendSucceeded("only line".to_string()),
            SessionEvent::InputLine("queued line".to_string()),
            SessionEvent::Unwrapped(message("npub1peer", PRIVATE_DM_KIND, "late")),
            SessionEvent::Cancelled,
        ],
    );
    assert_eq!(state, SessionState::Terminating);
    assert_eq!(
        trace,
        vec![Action::ShowSent("only line".to_string()), Action::Unsubscribe]
    );
    assert_eq!(unsubscribes(&trace), 1);
}

#[test]
fn without_one_shot_the_session_keeps_running_after_a_send() {
    let cfg = config(false);
    let (state, trace) = run(&cfg, vec![SessionEvent::SendSucceeded("line".to_string())]);
    assert_eq!(state, SessionState::Running);
    assert_eq!(trace, vec![Action::ShowSent("line".to_string()), Action::Prompt]);
    assert_eq!(unsubscribes(&trace), 0);
}

#[test]
fn send_failure_classification_matches_the_collaborator_text() {
    assert!(send_failure_is_no_relays("relay pool: no relays specified for this send"));
    assert!(send_failure_is_no_relays("no relays specified"));
    assert!(!send_failure_is_no_relays("connection timed out"));
    assert!(!send_failure_is_no_relays("no relays"));
}

#[test]
fn send_failure_is_never_fatal_and_a_retry_goes_through() {
    let cfg = config(false);
    let (state, trace) = run(
        &cfg,
        vec![
            SessionEvent::SendFailed("pool error: no relays specified".to_string()),
            SessionEvent::SendSucceeded("second try".to_string()),
        ],
    );
    assert_eq!(state, SessionState::Running);
    assert_eq!(
        trace,
        vec![
            Action::WarnNoWriteRelays,
            Action::Prompt,
            Action::ShowSent("second try".to_string()),
            Action::Prompt,
        ]
    );
}

#[test]
fn generic_send_failure_shows_the_raw_text() {
    let cfg = config(false);
    let (state, trace) = run(&cfg, vec![SessionEvent::SendFailed("timed out".to_string())]);
    assert_eq!(state, SessionState::Running);
    assert_eq!(
        trace,
        vec![Action::WarnSendFailure("timed out".to_string()), Action::Prompt]
    );
}

#[test]
fn cancellation_mid_unwrap_still_unsubscribes_exactly_once() {
    let cfg = config(false);
    let (state, trace) = run(
        &cfg,
        vec![
            SessionEvent::Cancelled,
            SessionEvent::Unwrapped(message("npub1peer", PRIVATE_DM_KIND, "in flight")),
            SessionEvent::InputLine("after".to_string()),
        ],
    );
    assert_eq!(state, SessionState::Terminating);
    assert_eq!(trace, vec![Action::Farewell, Action::Unsubscribe]);
    assert_eq!(unsubscribes(&trace), 1);
}

#[test]
fn end_of_input_unsubscribes_and_terminates() {
    let cfg = config(false);
    let (state, trace) = run(&cfg, vec![SessionEvent::InputClosed]);
    assert_eq!(state, SessionState::Terminating);
    assert_eq!(trace, vec![Action::Unsubscribe]);
}

#[test]
fn blank_lines_reprompt_and_nonblank_lines_are_sent() {
    let cfg = config(false);
    let (state, trace) = run(
        &cfg,
        vec![
            SessionEvent::InputLine("".to_string()),
            SessionEvent::InputLine("  \t ".to_string()),
            SessionEvent::InputLine("hello".to_string()),
        ],
    );
    assert_eq!(state, SessionState::Running);
    assert_eq!(
        trace,
        vec![Action::Prompt, Action::Prompt, Action::SendMessage("hello".to_string())]
    );
}
