use vstd::prelude::*;
use vstd::string::StringExecFns;
use crate::common::Error;
use crate::conversation::{
    conversation_response_of, conversation_row_of, participant_row_of, Conversation, ConversationResponse,
    CreationPlan, Participant,
};

verus! {

/// Where a conversation creation stands inside its unit of work.
#[derive(Debug, Clone, Copy, PartialEq, Eq, Structural)]
pub enum Phase {
    /// Waiting to hear whether the private-pair key is taken.
    Checking,
    /// Waiting for the conversation row to be stored.
    Inserting,
    /// Waiting for the participant row of this member to be stored.
    Enrolling(usize),
    /// Committed or rolled back; nothing more happens.
    Finished,
}

/// The kinds of answer the store gives to an operation.
#[derive(Debug, Clone, Copy, PartialEq, Eq, Structural)]
pub enum ReplyKind {
    Checked(bool),
    ConversationStored,
    ParticipantStored,
    Failed,
}

/// The kinds of operation a creation asks of the store.
#[derive(Debug, Clone, Copy, PartialEq, Eq, Structural)]
pub enum StepKind {
    CheckPrivateId,
    InsertConversation,
    InsertParticipant(usize),
    Commit,
    Rollback,
    Idle,
}

/// The first operation of a creation and the phase it waits in.
pub open spec fn first_step(private: bool) -> (Phase, StepKind) {
    if private {
        (Phase::Checking, StepKind::CheckPrivateId)
    } else {
        (Phase::Inserting, StepKind::InsertConversation)
    }
}

/// One move of a creation with `n` members: from a phase and the store's answer to the
/// next phase and operation. A failure, a taken key or an unexpected answer rolls back.
pub open spec fn next_step(phase: Phase, n: nat, reply: ReplyKind) -> (Phase, StepKind) {
    match phase {
        Phase::Finished => (Phase::Finished, StepKind::Idle),
        Phase::Checking => match reply {
            ReplyKind::Checked(false) => (Phase::Inserting, StepKind::InsertConversation),
            _ => (Phase::Finished, StepKind::Rollback),
        },
        Phase::Inserting => match reply {
            ReplyKind::ConversationStored => if n > 0 {
                (Phase::Enrolling(0), StepKind::InsertParticipant(0))
            } else {
                (Phase::Finished, StepKind::Commit)
            },
            _ => (Phase::Finished, StepKind::Rollback),
        },
        Phase::Enrolling(i) => match reply {
            ReplyKind::ParticipantStored => if i + 1 < n {
                (Phase::Enrolling((i + 1) as usize), StepKind::InsertParticipant((i + 1) as usize))
            } else {
                (Phase::Finished, StepKind::Commit)
            },
            _ => (Phase::Finished, StepKind::Rollback),
        },
    }
}

/// The operations that follow a run of answers, one per answer.
pub open spec fn later_steps(phase: Phase, n: nat, replies: Seq<ReplyKind>) -> Seq<StepKind>
    decreases replies.len(),
{
    if replies.len() == 0 {
        Seq::empty()
    } else {
        let (p, s) = next_step(phase, n, replies[0]);
        seq![s] + later_steps(p, n, replies.drop_first())
    }
}

/// Every operation of a creation with `n` members, given the store's answers in order.
pub open spec fn creation_steps(private: bool, n: nat, replies: Seq<ReplyKind>) -> Seq<StepKind> {
    seq![first_step(private).1] + later_steps(first_step(private).0, n, replies)
}

/// The answers of a store that succeeds at everything a group creation of `n` members asks.
pub open spec fn all_stored(n: nat) -> Seq<ReplyKind> {
    seq![ReplyKind::ConversationStored] + Seq::new(n, |i: int| ReplyKind::ParticipantStored)
}

/// The participant inserts from member `from` up to member `n`, in order.
pub open spec fn participant_inserts(from: nat, n: nat) -> Seq<StepKind> {
    Seq::new((n - from) as nat, |i: int| StepKind::InsertParticipant((from + i) as usize))
}

proof fn lemma_later_steps_unfold(phase: Phase, n: nat, replies: Seq<ReplyKind>)
    requires
        replies.len() > 0,
    ensures
        later_steps(phase, n, replies).len() == replies.len(),
        later_steps(phase, n, replies)[0] == next_step(phase, n, replies[0]).1,
        later_steps(phase, n, replies).drop_first() == later_steps(next_step(phase, n, replies[0]).0, n, replies.drop_first()),
{
    lemma_later_steps_len(phase, n, replies);
    let (p, s) = next_step(phase, n, replies[0]);
    assert((seq![s] + later_steps(p, n, replies.drop_first())).drop_first() =~= later_steps(p, n, replies.drop_first()));
}

proof fn lemma_later_steps_len(phase: Phase, n: nat, replies: Seq<ReplyKind>)
    ensures
        later_steps(phase, n, replies).len() == replies.len(),
    decreases replies.len(),
{
    if replies.len() > 0 {
        let (p, s) = next_step(phase, n, replies[0]);
        lemma_later_steps_len(p, n, replies.drop_first());
    }
}

/// A finished creation only idles.
proof fn lemma_finished_idles(n: nat, replies: Seq<ReplyKind>)
    ensures
        forall|k: int| 0 <= k < later_steps(Phase::Finished, n, replies).len()
            ==> #[trigger] later_steps(Phase::Finished, n, replies)[k] == StepKind::Idle,
    decreases replies.len(),
{
    lemma_later_steps_len(Phase::Finished, n, replies);
    if replies.len() > 0 {
        lemma_finished_idles(n, replies.drop_first());
        lemma_later_steps_unfold(Phase::Finished, n, replies);
        let rest = later_steps(Phase::Finished, n, replies.drop_first());
        assert forall|k: int| 0 <= k < later_steps(Phase::Finished, n, replies).len()
            implies #[trigger] later_steps(Phase::Finished, n, replies)[k] == StepKind::Idle by {
            if k > 0 {
                assert(later_steps(Phase::Finished, n, replies)[k] == rest[k - 1]);
            }
        }
    }
}

/// A run that commits heard no failure before it did, and never rolls back; once it
/// rolls back it never commits.
proof fn lemma_commit_after_successes(phase: Phase, n: nat, replies: Seq<ReplyKind>)
    ensures
        forall|k: int| 0 <= k < later_steps(phase, n, replies).len()
            && #[trigger] later_steps(phase, n, replies)[k] == StepKind::Commit
            ==> forall|j: int| 0 <= j <= k ==> replies[j] != ReplyKind::Failed,
        forall|k: int, j: int| 0 <= k < later_steps(phase, n, replies).len() && 0 <= j < later_steps(phase, n, replies).len()
            && #[trigger] later_steps(phase, n, replies)[k] == StepKind::Commit
            ==> #[trigger] later_steps(phase, n, replies)[j] != StepKind::Rollback,
        (phase is Finished) ==> forall|k: int| 0 <= k < later_steps(phase, n, replies).len()
            ==> #[trigger] later_steps(phase, n, replies)[k] != StepKind::Commit,
    decreases replies.len(),
{
    lemma_later_steps_len(phase, n, replies);
    if replies.len() > 0 {
        let (p, s) = next_step(phase, n, replies[0]);
        let rest = later_steps(p, n, replies.drop_first());
        let all = later_steps(phase, n, replies);
        lemma_later_steps_unfold(phase, n, replies);
        lemma_commit_after_successes(p, n, replies.drop_first());
        assert forall|k: int| 0 < k < all.len() implies #[trigger] all[k] == rest[k - 1] by {}
        if s == StepKind::Commit || s == StepKind::Rollback {
            assert(p is Finished);
            lemma_finished_idles(n, replies.drop_first());
        }
        if replies[0] == ReplyKind::Failed {
            assert(p is Finished);
            lemma_finished_idles(n, replies.drop_first());
        }
        assert forall|k: int| 0 <= k < all.len() && #[trigger] all[k] == StepKind::Commit
            implies forall|j: int| 0 <= j <= k ==> replies[j] != ReplyKind::Failed by {
            assert forall|j: int| 0 <= j <= k implies replies[j] != ReplyKind::Failed by {
                if j > 0 {
                    assert(replies.drop_first()[j - 1] == replies[j]);
                    assert(rest[k - 1] == StepKind::Commit);
                }
            }
        }
    }
}

/// Rollback atomicity: a creation whose store fails at any write before the end (the
/// second participant insert, say) never commits, so none of its rows become visible;
/// and a creation that commits heard only successes up to its commit.
pub proof fn lemma_failure_never_commits(private: bool, n: nat, replies: Seq<ReplyKind>)
    ensures
        forall|k: int| 0 < k < creation_steps(private, n, replies).len()
            && #[trigger] creation_steps(private, n, replies)[k] == StepKind::Commit
            ==> forall|j: int| 0 <= j < k ==> replies[j] != ReplyKind::Failed,
        forall|k: int, j: int| 0 <= k < creation_steps(private, n, replies).len()
            && 0 <= j < creation_steps(private, n, replies).len()
            && #[trigger] creation_steps(private, n, replies)[k] == StepKind::Commit
            ==> #[trigger] creation_steps(private, n, replies)[j] != StepKind::Rollback,
{
    let (p, s) = first_step(private);
    let rest = later_steps(p, n, replies);
    let all = creation_steps(private, n, replies);
    lemma_commit_after_successes(p, n, replies);
    lemma_later_steps_len(p, n, replies);
    assert forall|k: int| 0 < k < all.len() implies #[trigger] all[k] == rest[k - 1] by {}
    assert(all[0] == s);
    assert forall|k: int| 0 < k < all.len() && #[trigger] all[k] == StepKind::Commit
        implies forall|j: int| 0 <= j < k ==> replies[j] != ReplyKind::Failed by {
        assert(rest[k - 1] == StepKind::Commit);
    }
}

/// A second private chat between the same two users: when the store says the key is taken,
/// the creation rolls back at once, and no conversation or participant row is ever written.
pub proof fn lemma_taken_key_writes_nothing(n: nat, replies: Seq<ReplyKind>)
    requires
        replies.len() > 0,
        replies[0] == ReplyKind::Checked(true),
    ensures
        creation_steps(true, n, replies)[0] == StepKind::CheckPrivateId,
        creation_steps(true, n, replies)[1] == StepKind::Rollback,
        forall|k: int| 1 < k < creation_steps(true, n, replies).len()
            ==> #[trigger] creation_steps(true, n, replies)[k] == StepKind::Idle,
{
    let rest = later_steps(Phase::Checking, n, replies);
    let all = creation_steps(true, n, replies);
    lemma_later_steps_unfold(Phase::Checking, n, replies);
    lemma_finished_idles(n, replies.drop_first());
    let tail = later_steps(Phase::Finished, n, replies.drop_first());
    assert forall|k: int| 1 < k < all.len() implies #[trigger] all[k] == StepKind::Idle by {
        assert(all[k] == rest[k - 1]);
        assert(rest[k - 1] == tail[k - 2]);
    }
}

proof fn lemma_enrolling_all_stored(i: nat, n: nat)
    requires
        i < n,
        i < usize::MAX,
        n <= usize::MAX,
    ensures
        later_steps(Phase::Enrolling(i as usize), n, Seq::new((n - i) as nat, |k: int| ReplyKind::ParticipantStored))
            == participant_inserts(i + 1, n) + seq![StepKind::Commit],
    decreases n - i,
{
    let replies = Seq::new((n - i) as nat, |k: int| ReplyKind::ParticipantStored);
    lemma_later_steps_unfold(Phase::Enrolling(i as usize), n, replies);
    let tail = Seq::new((n - i - 1) as nat, |k: int| ReplyKind::ParticipantStored);
    assert(replies.drop_first() =~= tail);
    if i + 1 < n {
        lemma_enrolling_all_stored(i + 1, n);
        assert(later_steps(Phase::Enrolling(i as usize), n, replies) =~= participant_inserts(i + 1, n) + seq![StepKind::Commit]);
    } else {
        assert(later_steps(Phase::Enrolling(i as usize), n, replies) =~= participant_inserts(i + 1, n) + seq![StepKind::Commit]);
    }
}

proof fn lemma_inserting_all_stored(n: nat)
    requires
        0 < n <= usize::MAX,
    ensures
        later_steps(Phase::Inserting, n, all_stored(n)) == participant_inserts(0, n) + seq![StepKind::Commit],
{
    let replies = all_stored(n);
    lemma_later_steps_unfold(Phase::Inserting, n, replies);
    let tail = Seq::new(n, |k: int| ReplyKind::ParticipantStored);
    assert(replies.drop_first() =~= tail);
    assert(Seq::new((n - 0) as nat, |k: int| ReplyKind::ParticipantStored) =~= tail);
    lemma_enrolling_all_stored(0, n);
    let rest = later_steps(Phase::Inserting, n, replies);
    assert(rest =~= seq![StepKind::InsertParticipant(0)] + later_steps(Phase::Enrolling(0), n, tail));
    assert(rest =~= participant_inserts(0, n) + seq![StepKind::Commit]);
}

/// A creation whose store succeeds at everything (and, for a private chat, finds its key
/// free) inserts the conversation, then one participant row per member in order, then
/// commits.
pub proof fn lemma_successful_creation(n: nat)
    requires
        0 < n <= usize::MAX,
    ensures
        creation_steps(false, n, all_stored(n))
            == seq![StepKind::InsertConversation] + participant_inserts(0, n) + seq![StepKind::Commit],
        creation_steps(true, n, seq![ReplyKind::Checked(false)] + all_stored(n))
            == seq![StepKind::CheckPrivateId, StepKind::InsertConversation] + participant_inserts(0, n)
                + seq![StepKind::Commit],
{
    lemma_inserting_all_stored(n);
    let tail = participant_inserts(0, n) + seq![StepKind::Commit];
    assert(creation_steps(false, n, all_stored(n)) =~= seq![StepKind::InsertConversation] + participant_inserts(0, n)
        + seq![StepKind::Commit]);
    let replies = seq![ReplyKind::Checked(false)] + all_stored(n);
    lemma_later_steps_unfold(Phase::Checking, n, replies);
    assert(replies.drop_first() =~= all_stored(n));
    assert(later_steps(Phase::Checking, n, replies) =~= seq![StepKind::InsertConversation] + tail);
    assert(creation_steps(true, n, replies) =~= seq![StepKind::CheckPrivateId, StepKind::InsertConversation]
        + participant_inserts(0, n) + seq![StepKind::Commit]);
}

/// What the store answered to the last operation of a creation.
#[derive(Debug, Clone)]
pub enum StoreReply {
    /// Whether the private-pair key is already taken.
    Checked(bool),
    /// The conversation row as stored, with its id.
    ConversationStored(Conversation),
    ParticipantStored,
    Failed(Error),
}

pub open spec fn reply_kind(r: StoreReply) -> ReplyKind {
    match r {
        StoreReply::Checked(b) => ReplyKind::Checked(b),
        StoreReply::ConversationStored(_) => ReplyKind::ConversationStored,
        StoreReply::ParticipantStored => ReplyKind::ParticipantStored,
        StoreReply::Failed(_) => ReplyKind::Failed,
    }
}

/// The next operation a creation asks of its unit of work.
#[derive(Debug, Clone)]
pub enum CreationStep {
    CheckPrivateId(String),
    InsertConversation(Conversation),
    InsertParticipant(Participant),
    /// Commit, and answer with the created conversation.
    Commit(ConversationResponse),
    /// Roll back, and answer with the error.
    Rollback(Error),
    /// Nothing more to do.
    Idle,
}

/// Whether an operation is of a kind.
pub open spec fn step_is(s: CreationStep, k: StepKind) -> bool {
    match s {
        CreationStep::CheckPrivateId(_) => k == StepKind::CheckPrivateId,
        CreationStep::InsertConversation(_) => k == StepKind::InsertConversation,
        CreationStep::InsertParticipant(_) => k is InsertParticipant,
        CreationStep::Commit(_) => k == StepKind::Commit,
        CreationStep::Rollback(_) => k == StepKind::Rollback,
        CreationStep::Idle => k == StepKind::Idle,
    }
}

/// A conversation creation in progress, driven by the store's answers.
pub struct ConversationCreation {
    plan: CreationPlan,
    phase: Phase,
    stored: Option<Conversation>,
    rows: Vec<Participant>,
}

impl ConversationCreation {
    pub closed spec fn plan(&self) -> CreationPlan {
        self.plan
    }

    pub closed spec fn phase(&self) -> Phase {
        self.phase
    }

    /// The conversation row as the store returned it, once it has.
    pub closed spec fn stored(&self) -> Option<Conversation> {
        self.stored
    }

    pub open spec fn members(&self) -> nat {
        self.plan().members@.len()
    }

    pub closed spec fn wf(&self) -> bool {
        &&& self.phase is Checking ==> self.plan.private_id is Some
        &&& self.phase is Enrolling ==> {
            &&& self.stored is Some
            &&& self.phase->0 < self.rows@.len()
            &&& self.rows@.len() == self.plan.members@.len()
            &&& forall|k: int| 0 <= k < self.rows@.len()
                ==> participant_row_of(self.plan, k, self.stored->0.id, #[trigger] self.rows@[k])
        }
    }

    /// Starts a planned creation: a private chat first checks its key, a group inserts its
    /// conversation row straight away.
    pub fn begin(plan: CreationPlan) -> (r: (ConversationCreation, CreationStep))
        ensures
            r.0.wf(),
            r.0.plan() == plan,
            r.0.phase() == first_step(plan.private_id is Some).0,
            r.0.stored() is None,
            step_is(r.1, first_step(plan.private_id is Some).1),
            r.1 matches CreationStep::CheckPrivateId(k) ==> k@ == plan.private_id->0@,
            r.1 matches CreationStep::InsertConversation(c) ==> conversation_row_of(plan, c),
    {
        let step = match &plan.private_id {
            Some(k) => CreationStep::CheckPrivateId(k.clone()),
            None => match plan.conversation_row(false) {
                Ok(c) => CreationStep::InsertConversation(c),
                Err(e) => CreationStep::Rollback(e),
            },
        };
        let phase = if plan.private_id.is_some() { Phase::Checking } else { Phase::Inserting };
        (ConversationCreation { plan, phase, stored: None, rows: Vec::new() }, step)
    }

    fn commit(&self) -> (r: CreationStep)
        requires
            self.stored is Some,
        ensures
            r matches CreationStep::Commit(resp) && conversation_response_of(self.stored->0, resp),
    {
        match &self.stored {
            Some(c) => CreationStep::Commit(ConversationResponse::from(c.duplicate())),
            None => CreationStep::Idle,
        }
    }

    /// Takes the store's answer to the last operation and gives the next one, as
    /// `next_step` says: a taken key is a `Conflict`, a failure is rolled back unchanged,
    /// each member gets its participant row in turn, and the last row commits.
    pub fn advance(&mut self, reply: StoreReply) -> (r: CreationStep)
        requires
            old(self).wf(),
        ensures
            final(self).wf(),
            final(self).plan() == old(self).plan(),
            final(self).phase() == next_step(old(self).phase(), old(self).members(), reply_kind(reply)).0,
            step_is(r, next_step(old(self).phase(), old(self).members(), reply_kind(reply)).1),
            r matches CreationStep::InsertConversation(c) ==> conversation_row_of(old(self).plan(), c),
            r matches CreationStep::InsertParticipant(p) ==> (final(self).stored() is Some && participant_row_of(
                old(self).plan(),
                final(self).phase()->0 as int,
                final(self).stored()->0.id,
                p,
            )),
            r matches CreationStep::Commit(resp) ==> (final(self).stored() is Some
                && conversation_response_of(final(self).stored()->0, resp)),
            final(self).stored() == match reply {
                StoreReply::ConversationStored(c) => if old(self).phase() is Inserting {
                    Some(c)
                } else {
                    old(self).stored()
                },
                _ => old(self).stored(),
            },
            (old(self).phase() is Checking && reply == StoreReply::Checked(true))
                ==> (r matches CreationStep::Rollback(e) && e.is_conflict()),
            reply matches StoreReply::Failed(e) ==> (!(old(self).phase() is Finished)
                ==> r == CreationStep::Rollback(e)),
    {
        match self.phase {
            Phase::Finished => CreationStep::Idle,
            Phase::Checking => match reply {
                StoreReply::Checked(taken) => match self.plan.conversation_row(taken) {
                    Ok(c) => {
                        self.phase = Phase::Inserting;
                        CreationStep::InsertConversation(c)
                    },
                    Err(e) => {
                        self.phase = Phase::Finished;
                        CreationStep::Rollback(e)
                    },
                },
                StoreReply::Failed(e) => {
                    self.phase = Phase::Finished;
                    CreationStep::Rollback(e)
                },
                _ => {
                    self.phase = Phase::Finished;
                    CreationStep::Rollback(Error::InternalServerError(String::from_str("unexpected store reply")))
                },
            },
            Phase::Inserting => match reply {
                StoreReply::ConversationStored(c) => {
                    let rows = self.plan.participant_rows(c.id);
                    self.stored = Some(c);
                    if rows.len() > 0 {
                        let first = rows[0].duplicate();
                        self.rows = rows;
                        self.phase = Phase::Enrolling(0);
                        CreationStep::InsertParticipant(first)
                    } else {
                        self.phase = Phase::Finished;
                        self.commit()
                    }
                },
                StoreReply::Failed(e) => {
                    self.phase = Phase::Finished;
                    CreationStep::Rollback(e)
                },
                _ => {
                    self.phase = Phase::Finished;
                    CreationStep::Rollback(Error::InternalServerError(String::from_str("unexpected store reply")))
                },
            },
            Phase::Enrolling(i) => match reply {
                StoreReply::ParticipantStored => {
                    let len = self.rows.len();
                    assert(i < len);
                    if i < len - 1 {
                        let next = self.rows[i + 1].duplicate();
                        self.phase = Phase::Enrolling(i + 1);
                        CreationStep::InsertParticipant(next)
                    } else {
                        self.phase = Phase::Finished;
                        self.commit()
                    }
                },
                StoreReply::Failed(e) => {
                    self.phase = Phase::Finished;
                    CreationStep::Rollback(e)
                },
                _ => {
                    self.phase = Phase::Finished;
                    CreationStep::Rollback(Error::InternalServerError(String::from_str("unexpected store reply")))
                },
            },
        }
    }
}

} // verus!
