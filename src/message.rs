use vstd::prelude::*;
use crate::conversation::Timestamp;

verus! {

/// A stored message.
#[derive(Debug, Clone)]
pub struct Message {
    pub id: i64,
    pub conversation_id: i64,
    pub sender_id: i64,
    pub text: String,
    pub deleted_at: Option<Timestamp>,
    pub created_at: Timestamp,
    pub updated_at: Timestamp,
}

/// A message submission: which conversation, who sends, what text.
#[derive(Debug, Clone)]
pub struct CreateMessageRequest {
    pub conversation_id: i64,
    pub sender_id: i64,
    pub text: String,
}

/// The envelope of a message, as it is handed to subscribers and returned to the sender.
#[derive(Debug, Clone)]
pub struct MessageResponse {
    pub id: i64,
    pub conversation_id: i64,
    pub sender_id: i64,
    pub text: String,
    pub deleted_at: Option<Timestamp>,
    pub created_at: Timestamp,
    pub updated_at: Timestamp,
}

impl MessageResponse {
    /// An exact copy of the envelope.
    pub fn duplicate(&self) -> (r: MessageResponse)
        ensures
            r == *self,
    {
        MessageResponse {
            id: self.id,
            conversation_id: self.conversation_id,
            sender_id: self.sender_id,
            text: self.text.clone(),
            deleted_at: self.deleted_at,
            created_at: self.created_at,
            updated_at: self.updated_at,
        }
    }
}

/// The envelope built for a submission at time `now`, before it has a stored identity.
pub open spec fn envelope_of(req: CreateMessageRequest, now: Timestamp) -> MessageResponse {
    MessageResponse {
        id: 0,
        conversation_id: req.conversation_id,
        sender_id: req.sender_id,
        text: req.text,
        deleted_at: None,
        created_at: now,
        updated_at: now,
    }
}

/// Builds the envelope of a submission: its conversation, sender and text, stamped with `now`.
pub fn build_envelope(req: CreateMessageRequest, now: Timestamp) -> (r: MessageResponse)
    ensures
        r == envelope_of(req, now),
{
    MessageResponse {
        id: 0,
        conversation_id: req.conversation_id,
        sender_id: req.sender_id,
        text: req.text,
        deleted_at: None,
        created_at: now,
        updated_at: now,
    }
}

} // verus!
