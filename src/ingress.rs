use vstd::prelude::*;
use crate::clock::now_micros;
use crate::conversation::Timestamp;
use crate::message::{build_envelope, envelope_of, CreateMessageRequest, MessageResponse};
use crate::registry::{publishes, ChannelRegistry};

verus! {

/// Accepts a submission at time `now`: builds its envelope and publishes it on the
/// submission's conversation. The envelope is returned whether or not anybody received it.
pub fn submit_message_at(registry: &mut ChannelRegistry, req: CreateMessageRequest, now: Timestamp) -> (r: MessageResponse)
    requires
        old(registry).wf(),
    ensures
        r == envelope_of(req, now),
        publishes(*old(registry), *final(registry), req.conversation_id, r),
        final(registry).ids_left() == old(registry).ids_left(),
{
    let conversation_id = req.conversation_id;
    let envelope = build_envelope(req, now);
    registry.publish(conversation_id, &envelope);
    envelope
}

/// Accepts a submission now: as `submit_message_at`, stamped with the current time.
pub fn create_message(registry: &mut ChannelRegistry, req: CreateMessageRequest) -> (r: MessageResponse)
    requires
        old(registry).wf(),
    ensures
        r == envelope_of(req, r.created_at),
        publishes(*old(registry), *final(registry), req.conversation_id, r),
        final(registry).ids_left() == old(registry).ids_left(),
{
    let now = now_micros();
    submit_message_at(registry, req, now)
}

} // verus!
