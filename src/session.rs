use vstd::prelude::*;
use crate::registry::Subscription;

verus! {

/// The life of one WebSocket session.
#[derive(Debug, Clone, Copy, PartialEq, Eq, Structural)]
pub enum SessionState {
    Connecting,
    Active(Subscription),
    Closed,
}

/// The two loops that run while a session is active.
#[derive(Debug, Clone, Copy, PartialEq, Eq, Structural)]
pub enum SessionLoop {
    Send,
    Receive,
}

/// What can happen to a session.
#[derive(Debug, Clone, Copy, PartialEq, Eq, Structural)]
pub enum SessionEvent {
    /// The socket was upgraded and the session subscribed with this handle.
    Subscribed(Subscription),
    /// One of the two loops finished.
    LoopEnded(SessionLoop),
}

/// What the session must do after an event.
#[derive(Debug, Clone, Copy, PartialEq, Eq, Structural)]
pub enum SessionAction {
    /// Run both loops.
    Start,
    /// Cancel the other loop and end the subscription.
    Finish { cancel: SessionLoop, unsubscribe: Subscription },
    /// Nothing to do.
    Ignore,
}

/// What a frame from the peer is, as far as the receive loop cares.
#[derive(Debug, Clone, Copy, PartialEq, Eq, Structural)]
pub enum InboundFrame {
    Data,
    Close,
    Error,
}

/// How a forwarding attempt of the send loop went.
#[derive(Debug, Clone, Copy, PartialEq, Eq, Structural)]
pub enum SendOutcome {
    Written,
    SerializeFailed,
    WriteFailed,
    HandleClosed,
}

pub open spec fn other_loop(l: SessionLoop) -> SessionLoop {
    match l {
        SessionLoop::Send => SessionLoop::Receive,
        SessionLoop::Receive => SessionLoop::Send,
    }
}

/// One transition of a session: the next state and the action it calls for.
pub open spec fn session_step(s: SessionState, e: SessionEvent) -> (SessionState, SessionAction) {
    match (s, e) {
        (SessionState::Connecting, SessionEvent::Subscribed(h)) => (SessionState::Active(h), SessionAction::Start),
        (SessionState::Connecting, SessionEvent::LoopEnded(_)) => (SessionState::Closed, SessionAction::Ignore),
        (SessionState::Active(h), SessionEvent::LoopEnded(l)) => (
            SessionState::Closed,
            SessionAction::Finish { cancel: other_loop(l), unsubscribe: h },
        ),
        (SessionState::Active(h), SessionEvent::Subscribed(_)) => (SessionState::Active(h), SessionAction::Ignore),
        (SessionState::Closed, _) => (SessionState::Closed, SessionAction::Ignore),
    }
}

/// The state after a run of events, and the actions taken on the way.
pub open spec fn session_run(s: SessionState, events: Seq<SessionEvent>) -> (SessionState, Seq<SessionAction>)
    decreases events.len(),
{
    if events.len() == 0 {
        (s, Seq::empty())
    } else {
        let (next, action) = session_step(s, events[0]);
        let (last, rest) = session_run(next, events.drop_first());
        (last, seq![action] + rest)
    }
}

pub open spec fn finishes(a: SessionAction) -> bool {
    a is Finish
}

/// The number of `Finish` actions in a run.
pub open spec fn finish_count(actions: Seq<SessionAction>) -> nat
    decreases actions.len(),
{
    if actions.len() == 0 {
        0
    } else {
        (if finishes(actions[0]) { 1nat } else { 0nat }) + finish_count(actions.drop_first())
    }
}

/// Whether the receive loop keeps going after a frame: only a close frame or an error ends it.
pub fn receive_continues(frame: InboundFrame) -> (r: bool)
    ensures
        r <==> frame == InboundFrame::Data,
{
    match frame {
        InboundFrame::Data => true,
        InboundFrame::Close => false,
        InboundFrame::Error => false,
    }
}

/// Whether the send loop keeps going: it stops on a serialisation or write failure, or
/// once its subscription is closed.
pub fn send_continues(outcome: SendOutcome) -> (r: bool)
    ensures
        r <==> outcome == SendOutcome::Written,
{
    match outcome {
        SendOutcome::Written => true,
        _ => false,
    }
}

/// A session, from the upgrade to the end of both loops.
#[derive(Debug, Clone, Copy)]
pub struct Session {
    pub state: SessionState,
}

impl Session {
    pub fn new() -> (r: Session)
        ensures
            r.state == SessionState::Connecting,
    {
        Session { state: SessionState::Connecting }
    }

    /// Takes an event and answers the action it calls for. The loop that ends first closes
    /// the session: the other is cancelled and the subscription ended, once.
    pub fn on_event(&mut self, e: SessionEvent) -> (r: SessionAction)
        ensures
            (final(self).state, r) == session_step(old(self).state, e),
    {
        match (self.state, e) {
            (SessionState::Connecting, SessionEvent::Subscribed(h)) => {
                self.state = SessionState::Active(h);
                SessionAction::Start
            },
            (SessionState::Connecting, SessionEvent::LoopEnded(_)) => {
                self.state = SessionState::Closed;
                SessionAction::Ignore
            },
            (SessionState::Active(h), SessionEvent::LoopEnded(l)) => {
                self.state = SessionState::Closed;
                let cancel = match l {
                    SessionLoop::Send => SessionLoop::Receive,
                    SessionLoop::Receive => SessionLoop::Send,
                };
                SessionAction::Finish { cancel, unsubscribe: h }
            },
            (SessionState::Active(_), SessionEvent::Subscribed(_)) => SessionAction::Ignore,
            (SessionState::Closed, _) => SessionAction::Ignore,
        }
    }
}

/// A closed session stays closed and does nothing more.
pub proof fn lemma_closed_is_final(events: Seq<SessionEvent>)
    ensures
        session_run(SessionState::Closed, events).0 == SessionState::Closed,
        finish_count(session_run(SessionState::Closed, events).1) == 0,
    decreases events.len(),
{
    if events.len() > 0 {
        lemma_closed_is_final(events.drop_first());
        let rest = session_run(SessionState::Closed, events.drop_first()).1;
        assert((seq![SessionAction::Ignore] + rest).drop_first() =~= rest);
    }
}

/// Whatever happens, a session ends its subscription at most once; and once it has been
/// active and is closed, it has ended it exactly once.
pub proof fn lemma_unsubscribe_at_most_once(s: SessionState, events: Seq<SessionEvent>)
    requires
        !(s is Closed),
    ensures
        finish_count(session_run(s, events).1) <= 1,
        (s is Active && session_run(s, events).0 is Closed) ==> finish_count(session_run(s, events).1) == 1,
    decreases events.len(),
{
    if events.len() > 0 {
        let (next, action) = session_step(s, events[0]);
        let rest = session_run(next, events.drop_first()).1;
        assert((seq![action] + rest).drop_first() =~= rest);
        if next is Closed {
            lemma_closed_is_final(events.drop_first());
        } else {
            lemma_unsubscribe_at_most_once(next, events.drop_first());
        }
    }
}

} // verus!
