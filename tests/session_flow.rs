use chat_backend::registry::Subscription;
use chat_backend::session::{
    receive_continues, send_continues, InboundFrame, SendOutcome, Session, SessionAction, SessionEvent,
    SessionLoop, SessionState,
};

#[test]
fn first_loop_to_end_closes_session() {
    let handle = Subscription { id: 4, conversation_id: 42 };
    let mut session = Session::new();
    assert_eq!(session.state, SessionState::Connecting);
    assert_eq!(session.on_event(SessionEvent::Subscribed(handle)), SessionAction::Start);
    assert_eq!(session.state, SessionState::Active(handle));
    assert_eq!(
        session.on_event(SessionEvent::LoopEnded(SessionLoop::Receive)),
        SessionAction::Finish { cancel: SessionLoop::Send, unsubscribe: handle }
    );
    assert_eq!(session.state, SessionState::Closed);
    assert_eq!(session.on_event(SessionEvent::LoopEnded(SessionLoop::Send)), SessionAction::Ignore);
    assert_eq!(session.state, SessionState::Closed);
}

#[test]
fn send_failure_cancels_receive() {
    let handle = Subscription { id: 1, conversation_id: 2 };
    let mut session = Session::new();
    session.on_event(SessionEvent::Subscribed(handle));
    assert_eq!(
        session.on_event(SessionEvent::LoopEnded(SessionLoop::Send)),
        SessionAction::Finish { cancel: SessionLoop::Receive, unsubscribe: handle }
    );
}

#[test]
fn loops_stop_on_the_right_events() {
    assert!(receive_continues(InboundFrame::Data));
    assert!(!receive_continues(InboundFrame::Close));
    assert!(!receive_continues(InboundFrame::Error));
    assert!(send_continues(SendOutcome::Written));
    assert!(!send_continues(SendOutcome::SerializeFailed));
    assert!(!send_continues(SendOutcome::WriteFailed));
    assert!(!send_continues(SendOutcome::HandleClosed));
}
