//! The session loop as a pure state machine.
//!
//! A session multiplexes three independently-paced event sources — local
//! input lines, inbound notifications, and cancellation — into one
//! serialized decision loop.  The decisions live here: `session_step` maps
//! the current state and one ready event to the next state and the actions
//! the surrounding loop must perform (send a line, render a message, warn,
//! unsubscribe).  The loop itself — blocking reads, network sends, the
//! multiplexer — stays with the caller, which performs each action and
//! feeds the outcome back in as the next event.

use vstd::prelude::*;
use crate::keys::PublicKeyId;
use crate::relays::RelaySet;
use crate::unwrap::{MessageV, UnwrappedMessage, spec_relevant};
use crate::unwrap::is_relevant;

verus! {

/// Everything a session is configured with, read-only for its lifetime.
#[derive(Debug, Clone)]
pub struct SessionConfig {
    pub local: PublicKeyId,
    pub peer: PublicKeyId,
    pub relays: RelaySet,
    pub one_shot: bool,
}

/// The session's control state.  `Running` accepts and services events;
/// `Terminating` is terminal — once entered, no further event has any
/// effect.
#[derive(Debug, Clone, Copy, PartialEq, Eq, Structural)]
pub enum SessionState {
    Running,
    Terminating,
}

/// One ready event, from whichever source became ready first.
#[derive(Debug, Clone, PartialEq, Eq)]
pub enum SessionEvent {
    /// The cancellation signal fired.
    Cancelled,
    /// The local-input source reached end of input.
    InputClosed,
    /// A line was read from local input.
    InputLine(String),
    /// An outbound send requested earlier succeeded; the payload is the
    /// line that was sent.
    SendSucceeded(String),
    /// An outbound send failed; the payload is the collaborator's error
    /// text.
    SendFailed(String),
    /// An inbound envelope unwrapped into an authenticated inner message.
    Unwrapped(UnwrappedMessage),
    /// An inbound envelope could not be unwrapped.
    UnwrapFailed,
}

/// An effect the surrounding loop must perform, in order.
#[derive(Debug, Clone, PartialEq, Eq)]
pub enum Action {
    /// Show the input prompt again.
    Prompt,
    /// Hand the line to the outbound-send collaborator; its outcome comes
    /// back as `SendSucceeded` or `SendFailed`.
    SendMessage(String),
    /// Render the successfully sent line with the local marker.
    ShowSent(String),
    /// Render an inbound message's plaintext with the peer marker.
    ShowPeer(String),
    /// Render the distinguished no-write-relay warning with its hint.
    WarnNoWriteRelays,
    /// Render a generic send failure with the collaborator's text.
    WarnSendFailure(String),
    /// Print the farewell line.
    Farewell,
    /// Release the session's subscription.
    Unsubscribe,
}

/// The mathematical value of a `SessionEvent`.
pub enum EventV {
    Cancelled,
    InputClosed,
    InputLine(Seq<char>),
    SendSucceeded(Seq<char>),
    SendFailed(Seq<char>),
    Unwrapped(MessageV),
    UnwrapFailed,
}

/// The mathematical value of an `Action`.
pub enum ActionV {
    Prompt,
    SendMessage(Seq<char>),
    ShowSent(Seq<char>),
    ShowPeer(Seq<char>),
    WarnNoWriteRelays,
    WarnSendFailure(Seq<char>),
    Farewell,
    Unsubscribe,
}

impl View for SessionEvent {
    type V = EventV;

    open spec fn view(&self) -> EventV {
        match self {
            SessionEvent::Cancelled => EventV::Cancelled,
            SessionEvent::InputClosed => EventV::InputClosed,
            SessionEvent::InputLine(l) => EventV::InputLine(l@),
            SessionEvent::SendSucceeded(l) => EventV::SendSucceeded(l@),
            SessionEvent::SendFailed(m) => EventV::SendFailed(m@),
            SessionEvent::Unwrapped(u) => EventV::Unwrapped(u@),
            SessionEvent::UnwrapFailed => EventV::UnwrapFailed,
        }
    }
}

impl View for Action {
    type V = ActionV;

    open spec fn view(&self) -> ActionV {
        match self {
            Action::Prompt => ActionV::Prompt,
            Action::SendMessage(l) => ActionV::SendMessage(l@),
            Action::ShowSent(l) => ActionV::ShowSent(l@),
            Action::ShowPeer(l) => ActionV::ShowPeer(l@),
            Action::WarnNoWriteRelays => ActionV::WarnNoWriteRelays,
            Action::WarnSendFailure(m) => ActionV::WarnSendFailure(m@),
            Action::Farewell => ActionV::Farewell,
            Action::Unsubscribe => ActionV::Unsubscribe,
        }
    }
}

/// The values of a list of actions.
pub open spec fn acts_view(s: Seq<Action>) -> Seq<ActionV> {
    s.map_values(|a: Action| a@)
}

/// A character that counts as blank in an input line.
pub open spec fn is_space_char(c: char) -> bool {
    c == ' ' || c == '\t' || c == '\r' || c == '\n'
}

/// A line that is all blank is re-prompted, never sent.
pub open spec fn is_blank(s: Seq<char>) -> bool {
    forall|i: int| 0 <= i < s.len() ==> is_space_char(s[i])
}

/// `needle` occurs contiguously within `hay`.
pub open spec fn contains_seq(hay: Seq<char>, needle: Seq<char>) -> bool {
    exists|i: int|
        0 <= i && i + needle.len() <= hay.len() && #[trigger] hay.subrange(i, i + needle.len())
            == needle
}

/// The text the outbound-send collaborator reports when the write relay
/// set resolved to nothing usable.  Matching on this text is a
/// compatibility shim for the collaborator's string-typed errors.
pub open spec fn no_relays_needle() -> Seq<char> {
    "no relays specified"@
}

/// What one ready event does to the session: the next state and the
/// actions the loop performs, in order.
pub open spec fn step_spec(peer: Seq<char>, one_shot: bool, state: SessionState, ev: EventV) -> (
    SessionState,
    Seq<ActionV>,
) {
    if state is Terminating {
        (SessionState::Terminating, Seq::<ActionV>::empty())
    } else {
        match ev {
            EventV::Cancelled => (
                SessionState::Terminating,
                seq![ActionV::Farewell, ActionV::Unsubscribe],
            ),
            EventV::InputClosed => (SessionState::Terminating, seq![ActionV::Unsubscribe]),
            EventV::InputLine(l) => if is_blank(l) {
                (SessionState::Running, seq![ActionV::Prompt])
            } else {
                (SessionState::Running, seq![ActionV::SendMessage(l)])
            },
            EventV::SendSucceeded(l) => if one_shot {
                (SessionState::Terminating, seq![ActionV::ShowSent(l), ActionV::Unsubscribe])
            } else {
                (SessionState::Running, seq![ActionV::ShowSent(l), ActionV::Prompt])
            },
            EventV::SendFailed(m) => if contains_seq(m, no_relays_needle()) {
                (SessionState::Running, seq![ActionV::WarnNoWriteRelays, ActionV::Prompt])
            } else {
                (SessionState::Running, seq![ActionV::WarnSendFailure(m), ActionV::Prompt])
            },
            EventV::Unwrapped(u) => if spec_relevant(u, peer) {
                (SessionState::Running, seq![ActionV::ShowPeer(u.content), ActionV::Prompt])
            } else {
                (SessionState::Running, Seq::<ActionV>::empty())
            },
            EventV::UnwrapFailed => (SessionState::Running, Seq::<ActionV>::empty()),
        }
    }
}

/// Whether `s` is all blank, executably.
fn line_is_blank(s: &str) -> (r: bool)
    ensures
        r == is_blank(s@),
{
    let n = s.unicode_len();
    let mut i: usize = 0;
    while i < n
        invariant
            i <= n,
            n == s@.len(),
            forall|j: int| 0 <= j < i ==> is_space_char(s@[j]),
        decreases n - i,
    {
        let c = s.get_char(i);
        if !(c == ' ' || c == '\t' || c == '\r' || c == '\n') {
            return false;
        }
        i = i + 1;
    }
    true
}

/// Whether `needle` matches `hay` at position `i`.
fn match_at(hay: &str, needle: &str, i: usize) -> (r: bool)
    requires
        i + needle@.len() <= hay@.len(),
        hay@.len() <= usize::MAX,
    ensures
        r == (hay@.subrange(i as int, i as int + needle@.len() as int) == needle@),
{
    let nn = needle.unicode_len();
    let ghost sub = hay@.subrange(i as int, i as int + needle@.len() as int);
    let mut j: usize = 0;
    while j < nn
        invariant
            j <= nn,
            nn == needle@.len(),
            i + nn <= hay@.len(),
            hay@.len() <= usize::MAX,
            sub == hay@.subrange(i as int, i as int + nn as int),
            forall|t: int| 0 <= t < j ==> hay@[i + t] == needle@[t],
        decreases nn - j,
    {
        let ca = hay.get_char(i + j);
        let cb = needle.get_char(j);
        if ca != cb {
            proof {
                assert(sub[j as int] == hay@[i + j]);
                assert(sub != needle@);
            }
            return false;
        }
        j = j + 1;
    }
    proof {
        assert forall|t: int| 0 <= t < nn implies sub[t] == needle@[t] by {
            assert(sub[t] == hay@[i + t]);
        }
        assert(sub =~= needle@);
    }
    true
}

/// Whether `needle` occurs anywhere in `hay`, executably.
fn contains_str(hay: &str, needle: &str) -> (r: bool)
    ensures
        r == contains_seq(hay@, needle@),
{
    let hn = hay.unicode_len();
    let nn = needle.unicode_len();
    if nn > hn {
        return false;
    }
    if nn == 0 {
        proof {
            assert(hay@.subrange(0, 0 + needle@.len() as int) =~= needle@);
            assert(contains_seq(hay@, needle@));
        }
        return true;
    }
    let last = hn - nn;
    let mut i: usize = 0;
    loop
        invariant
            i <= last + 1,
            last == hn - nn,
            1 <= nn <= hn,
            hn == hay@.len(),
            nn == needle@.len(),
            forall|k: int|
                0 <= k < i ==> #[trigger] hay@.subrange(k, k + needle@.len() as int) != needle@,
        decreases last + 1 - i,
    {
        if i > last {
            proof {
                assert forall|k: int|
                    0 <= k && k + needle@.len() <= hay@.len() implies #[trigger] hay@.subrange(
                    k,
                    k + needle@.len() as int,
                ) != needle@ by {
                    assert(k <= last as int);
                }
            }
            return false;
        }
        if match_at(hay, needle, i) {
            proof {
                assert(0 <= i as int && i as int + needle@.len() <= hay@.len()
                    && hay@.subrange(i as int, i as int + needle@.len() as int) == needle@);
            }
            return true;
        }
        i = i + 1;
    }
}

/// Whether a send-failure text is the collaborator's distinguished report
/// that no write relay was usable.
pub fn send_failure_is_no_relays(msg: &str) -> (r: bool)
    ensures
        r == contains_seq(msg@, no_relays_needle()),
{
    contains_str(msg, "no relays specified")
}

/// Service one ready event: the decision core of the session loop.
///
/// The caller performs the returned actions in order and feeds each send
/// or unwrap outcome back in as the next event.  Once the returned state
/// is `Terminating`, the last action performed was the session's single
/// unsubscribe and the loop must exit.
pub fn session_step(cfg: &SessionConfig, state: SessionState, event: SessionEvent) -> (r: (
    SessionState,
    Vec<Action>,
))
    ensures
        r.0 == step_spec(cfg.peer@, cfg.one_shot, state, event@).0,
        acts_view(r.1@) =~= step_spec(cfg.peer@, cfg.one_shot, state, event@).1,
{
    let mut acts: Vec<Action> = Vec::new();
    if matches!(state, SessionState::Terminating) {
        return (SessionState::Terminating, acts);
    }
    match event {
        SessionEvent::Cancelled => {
            acts.push(Action::Farewell);
            acts.push(Action::Unsubscribe);
            (SessionState::Terminating, acts)
        },
        SessionEvent::InputClosed => {
            acts.push(Action::Unsubscribe);
            (SessionState::Terminating, acts)
        },
        SessionEvent::InputLine(l) => {
            if line_is_blank(l.as_str()) {
                acts.push(Action::Prompt);
            } else {
                acts.push(Action::SendMessage(l));
            }
            (SessionState::Running, acts)
        },
        SessionEvent::SendSucceeded(l) => {
            acts.push(Action::ShowSent(l));
            if cfg.one_shot {
                acts.push(Action::Unsubscribe);
                (SessionState::Terminating, acts)
            } else {
                acts.push(Action::Prompt);
                (SessionState::Running, acts)
            }
        },
        SessionEvent::SendFailed(m) => {
            if send_failure_is_no_relays(m.as_str()) {
                acts.push(Action::WarnNoWriteRelays);
            } else {
                acts.push(Action::WarnSendFailure(m));
            }
            acts.push(Action::Prompt);
            (SessionState::Running, acts)
        },
        SessionEvent::Unwrapped(u) => {
            if is_relevant(&u, &cfg.peer) {
                acts.push(Action::ShowPeer(u.content));
                acts.push(Action::Prompt);
            }
            (SessionState::Running, acts)
        },
        SessionEvent::UnwrapFailed => (SessionState::Running, acts),
    }
}

/// The whole remaining session, mathematically: fold `step_spec` over the
/// events still to arrive, collecting every action in order.
pub open spec fn run_spec(
    peer: Seq<char>,
    one_shot: bool,
    state: SessionState,
    evs: Seq<EventV>,
) -> (SessionState, Seq<ActionV>)
    decreases evs.len(),
{
    if evs.len() == 0 {
        (state, Seq::<ActionV>::empty())
    } else {
        let first = step_spec(peer, one_shot, state, evs[0]);
        let rest = run_spec(peer, one_shot, first.0, evs.drop_first());
        (rest.0, first.1 + rest.1)
    }
}

/// The values of a list of events.
pub open spec fn evs_view(s: Seq<SessionEvent>) -> Seq<EventV> {
    s.map_values(|e: SessionEvent| e@)
}

/// Drive a whole sequence of ready events from `state`, as the
/// surrounding loop would, collecting every action in order.
pub fn session_run(cfg: &SessionConfig, state: SessionState, events: Vec<SessionEvent>) -> (r: (
    SessionState,
    Vec<Action>,
))
    ensures
        r.0 == run_spec(cfg.peer@, cfg.one_shot, state, evs_view(events@)).0,
        acts_view(r.1@) == run_spec(cfg.peer@, cfg.one_shot, state, evs_view(events@)).1,
{
    let ghost evs0 = evs_view(events@);
    let mut rest = events;
    let mut cur = state;
    let mut acc: Vec<Action> = Vec::new();
    proof {
        assert(acts_view(acc@) =~= Seq::<ActionV>::empty());
        assert(acts_view(acc@) + run_spec(cfg.peer@, cfg.one_shot, cur, evs_view(rest@)).1
            =~= run_spec(cfg.peer@, cfg.one_shot, state, evs0).1);
    }
    while rest.len() > 0
        invariant
            run_spec(cfg.peer@, cfg.one_shot, state, evs0).0 == run_spec(
                cfg.peer@,
                cfg.one_shot,
                cur,
                evs_view(rest@),
            ).0,
            run_spec(cfg.peer@, cfg.one_shot, state, evs0).1 == acts_view(acc@) + run_spec(
                cfg.peer@,
                cfg.one_shot,
                cur,
                evs_view(rest@),
            ).1,
        decreases rest.len(),
    {
        let ghost pre = evs_view(rest@);
        let ghost acc0 = acc@;
        let ev = rest.remove(0);
        proof {
            assert(pre[0] == ev@);
            assert(evs_view(rest@) =~= pre.drop_first());
        }
        let step = session_step(cfg, cur, ev);
        let next = step.0;
        let mut acts = step.1;
        let ghost acts0 = acts@;
        acc.append(&mut acts);
        proof {
            assert(acc@ == acc0 + acts0);
            assert(acts_view(acc0 + acts0) =~= acts_view(acc0) + acts_view(acts0));
            let tail = run_spec(cfg.peer@, cfg.one_shot, next, pre.drop_first()).1;
            assert((acts_view(acc0) + acts_view(acts0)) + tail =~= acts_view(acc0) + (acts_view(
                acts0,
            ) + tail));
            assert(acts_view(acts0) + tail == run_spec(cfg.peer@, cfg.one_shot, cur, pre).1);
        }
        cur = next;
    }
    proof {
        assert(evs_view(rest@) =~= Seq::<EventV>::empty());
        assert(acts_view(acc@) + Seq::<ActionV>::empty() =~= acts_view(acc@));
    }
    (cur, acc)
}

/// How many unsubscribe actions a trace holds.
pub open spec fn count_unsubs(acts: Seq<ActionV>) -> nat
    decreases acts.len(),
{
    if acts.len() == 0 {
        0
    } else {
        count_unsubs(acts.drop_last()) + (if acts.last() is Unsubscribe {
            1nat
        } else {
            0nat
        })
    }
}

proof fn lemma_count_unsubs_add(a: Seq<ActionV>, b: Seq<ActionV>)
    ensures
        count_unsubs(a + b) == count_unsubs(a) + count_unsubs(b),
    decreases b.len(),
{
    if b.len() == 0 {
        assert(a + b =~= a);
    } else {
        lemma_count_unsubs_add(a, b.drop_last());
        assert((a + b).drop_last() =~= a + b.drop_last());
        assert((a + b).last() == b.last());
    }
}

proof fn lemma_count_unsubs_one(a: ActionV)
    ensures
        count_unsubs(seq![a]) == (if a is Unsubscribe {
            1nat
        } else {
            0nat
        }),
{
    let s = seq![a];
    assert(s.len() == 1);
    assert(s.drop_last() =~= Seq::<ActionV>::empty());
    assert(count_unsubs(s.drop_last()) == 0);
    assert(s.last() == a);
}

proof fn lemma_count_unsubs_two(a: ActionV, b: ActionV)
    ensures
        count_unsubs(seq![a, b]) == (if a is Unsubscribe {
            1nat
        } else {
            0nat
        }) + (if b is Unsubscribe {
            1nat
        } else {
            0nat
        }),
{
    assert(seq![a, b].drop_last() =~= seq![a]);
    assert(seq![a, b].last() == b);
    lemma_count_unsubs_one(a);
}

/// Law: `Terminating` is terminal — whatever events still arrive, the
/// session stays terminated and performs no further action.  In
/// particular, input lines queued behind the terminating event are never
/// processed and no send is issued after termination.
pub proof fn lemma_terminating_is_quiescent(peer: Seq<char>, one_shot: bool, evs: Seq<EventV>)
    ensures
        run_spec(peer, one_shot, SessionState::Terminating, evs).0 is Terminating,
        run_spec(peer, one_shot, SessionState::Terminating, evs).1 =~= Seq::<ActionV>::empty(),
    decreases evs.len(),
{
    if evs.len() > 0 {
        lemma_terminating_is_quiescent(peer, one_shot, evs.drop_first());
    }
}

/// Law: on every path, a session that starts `Running` issues the
/// unsubscribe action exactly once if it terminates, and not at all while
/// it has not — the subscription is released exactly once, at loop exit,
/// whichever transition triggered termination.
pub proof fn lemma_unsubscribe_exactly_once(peer: Seq<char>, one_shot: bool, evs: Seq<EventV>)
    ensures
        count_unsubs(run_spec(peer, one_shot, SessionState::Running, evs).1) == (if run_spec(
            peer,
            one_shot,
            SessionState::Running,
            evs,
        ).0 is Terminating {
            1nat
        } else {
            0nat
        }),
    decreases evs.len(),
{
    if evs.len() > 0 {
        let first = step_spec(peer, one_shot, SessionState::Running, evs[0]);
        let rest = run_spec(peer, one_shot, first.0, evs.drop_first());
        lemma_count_unsubs_add(first.1, rest.1);
        match evs[0] {
            EventV::Cancelled => {
                lemma_count_unsubs_two(ActionV::Farewell, ActionV::Unsubscribe);
                lemma_terminating_is_quiescent(peer, one_shot, evs.drop_first());
            },
            EventV::InputClosed => {
                lemma_count_unsubs_one(ActionV::Unsubscribe);
                lemma_terminating_is_quiescent(peer, one_shot, evs.drop_first());
            },
            EventV::InputLine(l) => {
                if is_blank(l) {
                    lemma_count_unsubs_one(ActionV::Prompt);
                } else {
                    lemma_count_unsubs_one(ActionV::SendMessage(l));
                }
                lemma_unsubscribe_exactly_once(peer, one_shot, evs.drop_first());
            },
            EventV::SendSucceeded(l) => {
                if one_shot {
                    lemma_count_unsubs_two(ActionV::ShowSent(l), ActionV::Unsubscribe);
                    lemma_terminating_is_quiescent(peer, one_shot, evs.drop_first());
                } else {
                    lemma_count_unsubs_two(ActionV::ShowSent(l), ActionV::Prompt);
                    lemma_unsubscribe_exactly_once(peer, one_shot, evs.drop_first());
                }
            },
            EventV::SendFailed(m) => {
                if contains_seq(m, no_relays_needle()) {
                    lemma_count_unsubs_two(ActionV::WarnNoWriteRelays, ActionV::Prompt);
                } else {
                    lemma_count_unsubs_two(ActionV::WarnSendFailure(m), ActionV::Prompt);
                }
                lemma_unsubscribe_exactly_once(peer, one_shot, evs.drop_first());
            },
            EventV::Unwrapped(u) => {
                if spec_relevant(u, peer) {
                    lemma_count_unsubs_two(ActionV::ShowPeer(u.content), ActionV::Prompt);
                }
                lemma_unsubscribe_exactly_once(peer, one_shot, evs.drop_first());
            },
            EventV::UnwrapFailed => {
                lemma_unsubscribe_exactly_once(peer, one_shot, evs.drop_first());
            },
        }
    }
}

/// Law: servicing events composes — running `a` and then `b` from where
/// `a` left off is the same session as running `a + b`, action for action.
/// The loop may therefore be analysed one ready event at a time.
pub proof fn lemma_run_append(
    peer: Seq<char>,
    one_shot: bool,
    state: SessionState,
    a: Seq<EventV>,
    b: Seq<EventV>,
)
    ensures
        run_spec(peer, one_shot, state, a + b).0 == run_spec(
            peer,
            one_shot,
            run_spec(peer, one_shot, state, a).0,
            b,
        ).0,
        run_spec(peer, one_shot, state, a + b).1 =~= run_spec(peer, one_shot, state, a).1
            + run_spec(peer, one_shot, run_spec(peer, one_shot, state, a).0, b).1,
    decreases a.len(),
{
    if a.len() == 0 {
        assert(a + b =~= b);
        assert(run_spec(peer, one_shot, state, a).1 + run_spec(peer, one_shot, state, b).1
            =~= run_spec(peer, one_shot, state, b).1);
    } else {
        let first = step_spec(peer, one_shot, state, a[0]);
        assert((a + b)[0] == a[0]);
        assert((a + b).drop_first() =~= a.drop_first() + b);
        lemma_run_append(peer, one_shot, first.0, a.drop_first(), b);
        let mid = run_spec(peer, one_shot, first.0, a.drop_first());
        let tail = run_spec(peer, one_shot, mid.0, b);
        assert(first.1 + (mid.1 + tail.1) =~= (first.1 + mid.1) + tail.1);
    }
}

/// Law: in one-shot mode, one successful send ends the session.  The
/// remaining trace is exactly the rendering of the sent line followed by
/// the single unsubscribe — whatever events are still queued, none is
/// processed.
pub proof fn lemma_one_shot_stops_after_send(peer: Seq<char>, line: Seq<char>, rest: Seq<EventV>)
    ensures
        run_spec(
            peer,
            true,
            SessionState::Running,
            seq![EventV::SendSucceeded(line)] + rest,
        ).0 is Terminating,
        run_spec(peer, true, SessionState::Running, seq![EventV::SendSucceeded(line)] + rest).1
            =~= seq![ActionV::ShowSent(line), ActionV::Unsubscribe],
{
    let evs = seq![EventV::SendSucceeded(line)] + rest;
    assert(evs[0] == EventV::SendSucceeded(line));
    assert(evs.drop_first() =~= rest);
    lemma_terminating_is_quiescent(peer, true, rest);
}

/// Law: in one-shot mode, the first successful send ends the session
/// wherever it falls.  If the session is still running after `prefix`,
/// the whole remaining trace is the prefix's trace, the rendering of the
/// sent line, and the single unsubscribe — the events still queued after
/// the send contribute nothing.
pub proof fn lemma_one_shot_ends_mid_session(
    peer: Seq<char>,
    prefix: Seq<EventV>,
    line: Seq<char>,
    rest: Seq<EventV>,
)
    requires
        run_spec(peer, true, SessionState::Running, prefix).0 is Running,
    ensures
        run_spec(
            peer,
            true,
            SessionState::Running,
            prefix + (seq![EventV::SendSucceeded(line)] + rest),
        ).0 is Terminating,
        run_spec(
            peer,
            true,
            SessionState::Running,
            prefix + (seq![EventV::SendSucceeded(line)] + rest),
        ).1 =~= run_spec(peer, true, SessionState::Running, prefix).1 + seq![
            ActionV::ShowSent(line),
            ActionV::Unsubscribe,
        ],
{
    lemma_run_append(
        peer,
        true,
        SessionState::Running,
        prefix,
        seq![EventV::SendSucceeded(line)] + rest,
    );
    lemma_one_shot_stops_after_send(peer, line, rest);
}

/// Law: a failed send never ends the session.  The loop stays `Running`,
/// warns — with the distinguished no-write-relay hint exactly when the
/// collaborator's text reports that no relays were usable — and a
/// following successful send is rendered as usual.
pub proof fn lemma_send_failure_is_recoverable(peer: Seq<char>, err: Seq<char>, line: Seq<char>)
    ensures
        run_spec(
            peer,
            false,
            SessionState::Running,
            seq![EventV::SendFailed(err), EventV::SendSucceeded(line)],
        ).0 is Running,
        run_spec(
            peer,
            false,
            SessionState::Running,
            seq![EventV::SendFailed(err), EventV::SendSucceeded(line)],
        ).1 =~= (if contains_seq(err, no_relays_needle()) {
            seq![
                ActionV::WarnNoWriteRelays,
                ActionV::Prompt,
                ActionV::ShowSent(line),
                ActionV::Prompt,
            ]
        } else {
            seq![
                ActionV::WarnSendFailure(err),
                ActionV::Prompt,
                ActionV::ShowSent(line),
                ActionV::Prompt,
            ]
        }),
{
    let evs = seq![EventV::SendFailed(err), EventV::SendSucceeded(line)];
    assert(evs[0] == EventV::SendFailed(err));
    let first = step_spec(peer, false, SessionState::Running, evs[0]);
    let tail = evs.drop_first();
    assert(tail =~= seq![EventV::SendSucceeded(line)]);
    assert(tail[0] == EventV::SendSucceeded(line));
    let second = step_spec(peer, false, SessionState::Running, tail[0]);
    assert(tail.drop_first() =~= Seq::<EventV>::empty());
    assert(run_spec(peer, false, SessionState::Running, tail.drop_first()).1
        =~= Seq::<ActionV>::empty());
    assert(run_spec(peer, false, SessionState::Running, tail).0 == SessionState::Running);
    assert(run_spec(peer, false, SessionState::Running, tail).1 =~= second.1);
    assert(run_spec(peer, false, SessionState::Running, evs).1 =~= first.1 + second.1);
    if contains_seq(err, no_relays_needle()) {
        assert(first.1 + second.1 =~= seq![
            ActionV::WarnNoWriteRelays,
            ActionV::Prompt,
            ActionV::ShowSent(line),
            ActionV::Prompt,
        ]);
    } else {
        assert(first.1 + second.1 =~= seq![
            ActionV::WarnSendFailure(err),
            ActionV::Prompt,
            ActionV::ShowSent(line),
            ActionV::Prompt,
        ]);
    }
}

/// Law: the first cancellation wins.  However events keep arriving — an
/// unwrap completing mid-flight included — the session prints the
/// farewell, releases the subscription exactly once, and terminates
/// normally, issuing no further send.
pub proof fn lemma_cancellation_wins(peer: Seq<char>, one_shot: bool, later: Seq<EventV>)
    ensures
        run_spec(peer, one_shot, SessionState::Running, seq![EventV::Cancelled] + later).0
            is Terminating,
        run_spec(peer, one_shot, SessionState::Running, seq![EventV::Cancelled] + later).1
            =~= seq![ActionV::Farewell, ActionV::Unsubscribe],
        count_unsubs(
            run_spec(peer, one_shot, SessionState::Running, seq![EventV::Cancelled] + later).1,
        ) == 1,
{
    let evs = seq![EventV::Cancelled] + later;
    assert(evs[0] == EventV::Cancelled);
    assert(evs.drop_first() =~= later);
    lemma_terminating_is_quiescent(peer, one_shot, later);
    lemma_unsubscribe_exactly_once(peer, one_shot, evs);
}

} // verus!
