use vstd::prelude::*;
use crate::message::MessageResponse;

verus! {

/// How many undelivered messages a subscriber's mailbox holds before the oldest is dropped.
pub const CHANNEL_CAPACITY: usize = 100;

/// A mailbox after one more message: the message joins the end, and a full mailbox
/// first loses its oldest message.
pub open spec fn enqueue(q: Seq<MessageResponse>, m: MessageResponse) -> Seq<MessageResponse> {
    if q.len() < CHANNEL_CAPACITY {
        q.push(m)
    } else {
        q.drop_first().push(m)
    }
}

/// The mailboxes after `m` is published on conversation `c`: every subscriber of `c`
/// receives it, every other mailbox stays as it was.
pub open spec fn after_publish(
    pending: Map<u64, Seq<MessageResponse>>,
    subs: Map<u64, i64>,
    c: i64,
    m: MessageResponse,
) -> Map<u64, Seq<MessageResponse>> {
    Map::new(
        |id: u64| pending.contains_key(id),
        |id: u64| if subs[id] == c { enqueue(pending[id], m) } else { pending[id] },
    )
}

/// Whether some subscription other than `id` is on conversation `c`.
pub open spec fn has_other_subscriber(subs: Map<u64, i64>, c: i64, id: u64) -> bool {
    exists|o: u64| o != id && subs.contains_key(o) && subs[o] == c
}

/// A subscriber's handle on a conversation's channel.
#[derive(Debug, Clone, Copy, PartialEq, Eq, Structural)]
pub struct Subscription {
    pub id: u64,
    pub conversation_id: i64,
}

struct Mailbox {
    id: u64,
    conversation_id: i64,
    pending: Vec<MessageResponse>,
}

/// The live per-conversation channels: one mailbox per subscription, and a registry entry
/// for each conversation that has at least one subscriber.
pub struct ChannelRegistry {
    mailboxes: Vec<Mailbox>,
    channels: Vec<i64>,
    next_id: u64,
    subs: Ghost<Map<u64, i64>>,
    queues: Ghost<Map<u64, Seq<MessageResponse>>>,
}

/// `post` is `pre` after a publication of `m` on conversation `c`.
pub open spec fn publishes(pre: ChannelRegistry, post: ChannelRegistry, c: i64, m: MessageResponse) -> bool {
    &&& post.wf()
    &&& post.subscriptions() == pre.subscriptions()
    &&& post.channels() == pre.channels()
    &&& post.pending() == after_publish(pre.pending(), pre.subscriptions(), c, m)
}

/// `post` is `pre` after the subscription `id` has left.
pub open spec fn unsubscribes(pre: ChannelRegistry, post: ChannelRegistry, id: u64) -> bool {
    &&& post.wf()
    &&& post.subscriptions() == pre.subscriptions().remove(id)
    &&& post.pending() == pre.pending().remove(id)
    &&& post.channels() == if pre.subscriptions().contains_key(id) && !has_other_subscriber(
        pre.subscriptions(),
        pre.subscriptions()[id],
        id,
    ) {
        pre.channels().remove(pre.subscriptions()[id])
    } else {
        pre.channels()
    }
}

impl ChannelRegistry {
    /// Each live subscription and the conversation it listens to.
    pub closed spec fn subscriptions(&self) -> Map<u64, i64> {
        self.subs@
    }

    /// The undelivered messages of each live subscription, oldest first.
    pub closed spec fn pending(&self) -> Map<u64, Seq<MessageResponse>> {
        self.queues@
    }

    /// The conversations that have a registry entry.
    pub closed spec fn channels(&self) -> Set<i64> {
        self.channels@.to_set()
    }

    /// How many fresh subscription ids are left to hand out.
    pub closed spec fn ids_left(&self) -> nat {
        (u64::MAX - self.next_id) as nat
    }

    pub closed spec fn wf(&self) -> bool {
        let mb = self.mailboxes@;
        &&& forall|i: int|
            0 <= i < mb.len() ==> {
                &&& self.subs@.contains_key(#[trigger] mb[i].id)
                &&& self.subs@[mb[i].id] == mb[i].conversation_id
                &&& self.queues@[mb[i].id] == mb[i].pending@
                &&& mb[i].id < self.next_id
                &&& mb[i].pending@.len() <= CHANNEL_CAPACITY
            }
        &&& forall|i: int, j: int| 0 <= i < mb.len() && 0 <= j < mb.len() && i != j ==> mb[i].id != mb[j].id
        &&& forall|id: u64| #[trigger] self.subs@.contains_key(id) ==> exists|i: int| 0 <= i < mb.len() && mb[i].id == id
        &&& self.queues@.dom() == self.subs@.dom()
        &&& self.channels@.no_duplicates()
        &&& forall|c: i64| #[trigger] self.channels@.contains(c) <==> exists|i: int| 0 <= i < mb.len() && mb[i].conversation_id == c
    }

    /// An empty registry: no channel, no subscription.
    pub fn new() -> (r: ChannelRegistry)
        ensures
            r.wf(),
            r.subscriptions() == Map::<u64, i64>::empty(),
            r.pending() == Map::<u64, Seq<MessageResponse>>::empty(),
            r.channels() == Set::<i64>::empty(),
            r.ids_left() == u64::MAX,
    {
        let r = ChannelRegistry {
            mailboxes: Vec::new(),
            channels: Vec::new(),
            next_id: 0,
            subs: Ghost(Map::empty()),
            queues: Ghost(Map::empty()),
        };
        assert(r.channels@.to_set() =~= Set::<i64>::empty());
        r
    }

    fn find_mailbox(&self, id: u64) -> (r: Option<usize>)
        requires
            self.wf(),
        ensures
            match r {
                Some(i) => i < self.mailboxes@.len() && self.mailboxes@[i as int].id == id,
                None => !self.subscriptions().contains_key(id),
            },
    {
        let mut i: usize = 0;
        while i < self.mailboxes.len()
            invariant
                self.wf(),
                i <= self.mailboxes@.len(),
                forall|k: int| 0 <= k < i ==> self.mailboxes@[k].id != id,
            decreases self.mailboxes@.len() - i,
        {
            if self.mailboxes[i].id == id {
                return Some(i);
            }
            i += 1;
        }
        None
    }

    fn find_channel(&self, c: i64) -> (r: Option<usize>)
        ensures
            match r {
                Some(k) => k < self.channels@.len() && self.channels@[k as int] == c,
                None => !self.channels@.contains(c),
            },
    {
        let mut k: usize = 0;
        while k < self.channels.len()
            invariant
                k <= self.channels@.len(),
                forall|j: int| 0 <= j < k ==> self.channels@[j] != c,
            decreases self.channels@.len() - k,
        {
            if self.channels[k] == c {
                return Some(k);
            }
            k += 1;
        }
        None
    }

    /// Subscribes to conversation `c`: a fresh subscription with an empty mailbox, and a
    /// registry entry for `c` if it had none. `None` only once every id has been handed out.
    pub fn subscribe(&mut self, c: i64) -> (r: Option<Subscription>)
        requires
            old(self).wf(),
        ensures
            final(self).wf(),
            r is None <==> old(self).ids_left() == 0,
            match r {
                None => *final(self) == *old(self),
                Some(s) => {
                    &&& final(self).ids_left() == old(self).ids_left() - 1
                    &&& s.conversation_id == c
                    &&& !old(self).subscriptions().contains_key(s.id)
                    &&& final(self).subscriptions() == old(self).subscriptions().insert(s.id, c)
                    &&& final(self).pending() == old(self).pending().insert(s.id, Seq::empty())
                    &&& final(self).channels() == old(self).channels().insert(c)
                },
            },
    {
        if self.next_id == u64::MAX {
            return None;
        }
        let id = self.next_id;
        assert(!self.subs@.contains_key(id)) by {
            if self.subs@.contains_key(id) {
                let i = choose|i: int| 0 <= i < self.mailboxes@.len() && self.mailboxes@[i].id == id;
                assert(self.mailboxes@[i].id < self.next_id);
            }
        }
        let ghost old_mb = self.mailboxes@;
        let ghost old_ch = self.channels@;
        self.next_id = id + 1;
        self.mailboxes.push(Mailbox { id, conversation_id: c, pending: Vec::new() });
        self.subs = Ghost(self.subs@.insert(id, c));
        self.queues = Ghost(self.queues@.insert(id, Seq::empty()));
        if self.find_channel(c).is_none() {
            self.channels.push(c);
        }
        assert(self.channels@ == old_ch || self.channels@ == old_ch.push(c));
        proof {
            let mb = self.mailboxes@;
            assert(mb[mb.len() - 1].id == id);
            assert forall|i: int| 0 <= i < mb.len() implies {
                &&& self.subs@.contains_key(#[trigger] mb[i].id)
                &&& self.subs@[mb[i].id] == mb[i].conversation_id
                &&& self.queues@[mb[i].id] == mb[i].pending@
                &&& mb[i].id < self.next_id
                &&& mb[i].pending@.len() <= CHANNEL_CAPACITY
            } by {
                if i < old_mb.len() {
                    assert(mb[i] == old_mb[i]);
                }
            }
            assert forall|x: u64| #[trigger] self.subs@.contains_key(x) implies exists|i: int|
                0 <= i < mb.len() && mb[i].id == x by {
                if x != id {
                    let i = choose|i: int| 0 <= i < old_mb.len() && old_mb[i].id == x;
                    assert(mb[i].id == x);
                }
            }
            assert forall|x: i64| #[trigger] self.channels@.contains(x) <==> exists|i: int|
                0 <= i < mb.len() && mb[i].conversation_id == x by {
                if self.channels@.contains(x) && x != c {
                    let k = choose|k: int| 0 <= k < self.channels@.len() && self.channels@[k] == x;
                    assert(old_ch[k] == x);
                    assert(old_ch.contains(x));
                    assert(old(self).channels@.contains(x));
                    let i = choose|i: int| 0 <= i < old_mb.len() && old_mb[i].conversation_id == x;
                    assert(mb[i].conversation_id == x);
                }
                if x == c {
                    assert(mb[mb.len() - 1].conversation_id == x);
                    if old_ch.contains(c) {
                        let k = choose|k: int| 0 <= k < old_ch.len() && old_ch[k] == c;
                        assert(self.channels@[k] == c);
                    } else {
                        assert(self.channels@[self.channels@.len() - 1] == c);
                    }
                }
                if exists|i: int| 0 <= i < mb.len() && mb[i].conversation_id == x {
                    let i = choose|i: int| 0 <= i < mb.len() && mb[i].conversation_id == x;
                    if x != c {
                        assert(old_mb[i].conversation_id == x);
                        assert(old_ch.contains(x));
                        let k = choose|k: int| 0 <= k < old_ch.len() && old_ch[k] == x;
                        assert(self.channels@[k] == x);
                    }
                }
            }
            assert forall|x: i64| self.channels@.contains(x) <==> (old_ch.contains(x) || x == c) by {
                if self.channels@.contains(x) {
                    let k = choose|k: int| 0 <= k < self.channels@.len() && self.channels@[k] == x;
                    if k < old_ch.len() {
                        assert(old_ch[k] == x);
                    }
                }
                if old_ch.contains(x) {
                    let k = choose|k: int| 0 <= k < old_ch.len() && old_ch[k] == x;
                    assert(self.channels@[k] == x);
                }
            }
            assert(self.channels@.to_set() =~= old_ch.to_set().insert(c));
        }
        Some(Subscription { id, conversation_id: c })
    }

    /// Publishes `m` on conversation `c`: every current subscriber of `c` finds it at the end
    /// of its mailbox (a full mailbox drops its oldest message), no other mailbox changes.
    /// Without a channel for `c` the message is dropped. The result says whether `c` had one.
    pub fn publish(&mut self, c: i64, m: &MessageResponse) -> (r: bool)
        requires
            old(self).wf(),
        ensures
            publishes(*old(self), *final(self), c, *m),
            r == old(self).channels().contains(c),
            final(self).ids_left() == old(self).ids_left(),
    {
        let ghost old_mb = self.mailboxes@;
        let ghost old_q = self.queues@;
        let mut i: usize = 0;
        while i < self.mailboxes.len()
            invariant
                self.subs == old(self).subs,
                self.queues == old(self).queues,
                self.channels == old(self).channels,
                self.next_id == old(self).next_id,
                old(self).wf(),
                old_mb == old(self).mailboxes@,
                self.mailboxes@.len() == old_mb.len(),
                0 <= i <= old_mb.len(),
                forall|k: int| #![trigger self.mailboxes@[k]] 0 <= k < old_mb.len() ==> {
                    &&& self.mailboxes@[k].id == old_mb[k].id
                    &&& self.mailboxes@[k].conversation_id == old_mb[k].conversation_id
                    &&& self.mailboxes@[k].pending@ == if k < i && old_mb[k].conversation_id == c {
                        enqueue(old_mb[k].pending@, *m)
                    } else {
                        old_mb[k].pending@
                    }
                },
            decreases old_mb.len() - i,
        {
            if self.mailboxes[i].conversation_id == c {
                let mailbox = &mut self.mailboxes[i];
                if mailbox.pending.len() >= CHANNEL_CAPACITY {
                    mailbox.pending.remove(0);
                }
                mailbox.pending.push(m.duplicate());
                proof {
                    let q = old_mb[i as int].pending@;
                    if q.len() >= CHANNEL_CAPACITY {
                        assert(q.remove(0) =~= q.drop_first());
                    }
                }
            }
            i += 1;
        }
        let ghost new_q = after_publish(old_q, self.subs@, c, *m);
        self.queues = Ghost(new_q);
        proof {
            let mb = self.mailboxes@;
            assert forall|k: int| 0 <= k < mb.len() implies {
                &&& self.subs@.contains_key(#[trigger] mb[k].id)
                &&& self.subs@[mb[k].id] == mb[k].conversation_id
                &&& self.queues@[mb[k].id] == mb[k].pending@
                &&& mb[k].id < self.next_id
                &&& mb[k].pending@.len() <= CHANNEL_CAPACITY
            } by {
                assert(old(self).subs@.contains_key(old_mb[k].id));
            }
            assert forall|x: u64| #[trigger] self.subs@.contains_key(x) implies exists|k: int|
                0 <= k < mb.len() && mb[k].id == x by {
                let k = choose|k: int| 0 <= k < old_mb.len() && old_mb[k].id == x;
                assert(mb[k].id == x);
            }
            assert forall|x: i64| #[trigger] self.channels@.contains(x) <==> exists|k: int|
                0 <= k < mb.len() && mb[k].conversation_id == x by {
                if self.channels@.contains(x) {
                    let k = choose|k: int| 0 <= k < old_mb.len() && old_mb[k].conversation_id == x;
                    assert(mb[k].conversation_id == x);
                }
                if exists|k: int| 0 <= k < mb.len() && mb[k].conversation_id == x {
                    let k = choose|k: int| 0 <= k < mb.len() && mb[k].conversation_id == x;
                    assert(old_mb[k].conversation_id == x);
                }
            }
            assert(self.queues@.dom() =~= self.subs@.dom());
        }
        self.find_channel(c).is_some()
    }

    fn has_subscriber(&self, c: i64) -> (r: bool)
        ensures
            r == exists|k: int| 0 <= k < self.mailboxes@.len() && self.mailboxes@[k].conversation_id == c,
    {
        let mut k: usize = 0;
        while k < self.mailboxes.len()
            invariant
                k <= self.mailboxes@.len(),
                forall|j: int| 0 <= j < k ==> self.mailboxes@[j].conversation_id != c,
            decreases self.mailboxes@.len() - k,
        {
            if self.mailboxes[k].conversation_id == c {
                return true;
            }
            k += 1;
        }
        false
    }

    /// Ends a subscription: its mailbox goes, and when it was the last subscriber of its
    /// conversation the registry entry goes too. The result says whether the entry went.
    /// A handle that is no longer live changes nothing.
    pub fn unsubscribe(&mut self, handle: Subscription) -> (r: bool)
        requires
            old(self).wf(),
        ensures
            unsubscribes(*old(self), *final(self), handle.id),
            final(self).ids_left() == old(self).ids_left(),
            r == (old(self).subscriptions().contains_key(handle.id) && !has_other_subscriber(
                old(self).subscriptions(),
                old(self).subscriptions()[handle.id],
                handle.id,
            )),
    {
        let id = handle.id;
        let i = match self.find_mailbox(id) {
            None => {
                assert(self.subs@.remove(id) =~= self.subs@);
                assert(self.queues@.remove(id) =~= self.queues@);
                return false;
            },
            Some(i) => i,
        };
        let ghost old_mb = self.mailboxes@;
        let ghost old_ch = self.channels@;
        let ghost old_subs = self.subs@;
        let c = self.mailboxes[i].conversation_id;
        self.mailboxes.remove(i);
        self.subs = Ghost(self.subs@.remove(id));
        self.queues = Ghost(self.queues@.remove(id));
        proof {
            let mb = self.mailboxes@;
            assert forall|k: int| 0 <= k < mb.len() implies #[trigger] mb[k] == old_mb[if k < i { k } else { k + 1 }] by {}
            assert forall|k: int| 0 <= k < mb.len() implies mb[k].id != id by {
                let j = if k < i { k } else { k + 1 };
                assert(mb[k] == old_mb[j]);
            }
            assert(has_other_subscriber(old_subs, c, id) <==> exists|k: int| 0 <= k < mb.len() && mb[k].conversation_id == c) by {
                if has_other_subscriber(old_subs, c, id) {
                    let o = choose|o: u64| o != id && old_subs.contains_key(o) && old_subs[o] == c;
                    let j = choose|j: int| 0 <= j < old_mb.len() && old_mb[j].id == o;
                    assert(j != i);
                    let k = if j < i { j } else { j - 1 };
                    assert(mb[k] == old_mb[j]);
                }
                if exists|k: int| 0 <= k < mb.len() && mb[k].conversation_id == c {
                    let k = choose|k: int| 0 <= k < mb.len() && mb[k].conversation_id == c;
                    let j = if k < i { k } else { k + 1 };
                    assert(mb[k] == old_mb[j]);
                    assert(old_subs.contains_key(old_mb[j].id));
                }
            }
        }
        let last = !self.has_subscriber(c);
        if last {
            if let Some(k) = self.find_channel(c) {
                self.channels.remove(k);
                proof {
                    assert forall|x: i64| self.channels@.contains(x) <==> (old_ch.contains(x) && x != c) by {
                        if self.channels@.contains(x) {
                            let j = choose|j: int| 0 <= j < self.channels@.len() && self.channels@[j] == x;
                            let oj = if j < k { j } else { j + 1 };
                            assert(self.channels@[j] == old_ch[oj]);
                            assert(oj != k);
                        }
                        if old_ch.contains(x) && x != c {
                            let oj = choose|oj: int| 0 <= oj < old_ch.len() && old_ch[oj] == x;
                            let j = if oj < k { oj } else { oj - 1 };
                            assert(self.channels@[j] == old_ch[oj]);
                        }
                    }
                    assert forall|a: int, b: int| 0 <= a < self.channels@.len() && 0 <= b < self.channels@.len() && a != b
                        implies self.channels@[a] != self.channels@[b] by {
                        let oa = if a < k { a } else { a + 1 };
                        let ob = if b < k { b } else { b + 1 };
                        assert(self.channels@[a] == old_ch[oa]);
                        assert(self.channels@[b] == old_ch[ob]);
                    }
                }
            }
        }
        proof {
            let mb = self.mailboxes@;
            assert forall|k: int| 0 <= k < mb.len() implies {
                &&& self.subs@.contains_key(#[trigger] mb[k].id)
                &&& self.subs@[mb[k].id] == mb[k].conversation_id
                &&& self.queues@[mb[k].id] == mb[k].pending@
                &&& mb[k].id < self.next_id
                &&& mb[k].pending@.len() <= CHANNEL_CAPACITY
            } by {
                let j = if k < i { k } else { k + 1 };
                assert(mb[k] == old_mb[j]);
                assert(old_subs.contains_key(old_mb[j].id));
            }
            assert forall|a: int, b: int| 0 <= a < mb.len() && 0 <= b < mb.len() && a != b implies mb[a].id != mb[b].id by {
                let ja = if a < i { a } else { a + 1 };
                let jb = if b < i { b } else { b + 1 };
                assert(mb[a] == old_mb[ja]);
                assert(mb[b] == old_mb[jb]);
            }
            assert forall|x: u64| #[trigger] self.subs@.contains_key(x) implies exists|k: int|
                0 <= k < mb.len() && mb[k].id == x by {
                assert(old_subs.contains_key(x));
                let j = choose|j: int| 0 <= j < old_mb.len() && old_mb[j].id == x;
                assert(j != i);
                let k = if j < i { j } else { j - 1 };
                assert(mb[k] == old_mb[j]);
            }
            assert forall|x: i64| #[trigger] self.channels@.contains(x) <==> exists|k: int|
                0 <= k < mb.len() && mb[k].conversation_id == x by {
                if x != c {
                    if old_ch.contains(x) {
                        let j = choose|j: int| 0 <= j < old_mb.len() && old_mb[j].conversation_id == x;
                        assert(j != i);
                        let k = if j < i { j } else { j - 1 };
                        assert(mb[k] == old_mb[j]);
                    }
                    if exists|k: int| 0 <= k < mb.len() && mb[k].conversation_id == x {
                        let k = choose|k: int| 0 <= k < mb.len() && mb[k].conversation_id == x;
                        let j = if k < i { k } else { k + 1 };
                        assert(mb[k] == old_mb[j]);
                        assert(old_ch.contains(x));
                    }
                } else if !last {
                    assert(old_ch.contains(c));
                }
            }
            assert(self.queues@.dom() =~= self.subs@.dom());
            if last {
                assert(self.channels@.to_set() =~= old_ch.to_set().remove(c));
            }
        }
        last
    }

    /// Hands out the undelivered messages of a subscription, oldest first, and empties its
    /// mailbox. A handle that is no longer live gets nothing.
    pub fn take_pending(&mut self, handle: Subscription) -> (r: Vec<MessageResponse>)
        requires
            old(self).wf(),
        ensures
            final(self).wf(),
            final(self).subscriptions() == old(self).subscriptions(),
            final(self).channels() == old(self).channels(),
            final(self).ids_left() == old(self).ids_left(),
            if old(self).subscriptions().contains_key(handle.id) {
                &&& r@ == old(self).pending()[handle.id]
                &&& final(self).pending() == old(self).pending().insert(handle.id, Seq::empty())
            } else {
                &&& r@ == Seq::<MessageResponse>::empty()
                &&& final(self).pending() == old(self).pending()
            },
    {
        let i = match self.find_mailbox(handle.id) {
            None => return Vec::new(),
            Some(i) => i,
        };
        let ghost old_mb = self.mailboxes@;
        let mut out: Vec<MessageResponse> = Vec::new();
        let mailbox = &mut self.mailboxes[i];
        std::mem::swap(&mut out, &mut mailbox.pending);
        self.queues = Ghost(self.queues@.insert(handle.id, Seq::empty()));
        proof {
            let mb = self.mailboxes@;
            assert forall|k: int| 0 <= k < mb.len() implies {
                &&& self.subs@.contains_key(#[trigger] mb[k].id)
                &&& self.subs@[mb[k].id] == mb[k].conversation_id
                &&& self.queues@[mb[k].id] == mb[k].pending@
                &&& mb[k].id < self.next_id
                &&& mb[k].pending@.len() <= CHANNEL_CAPACITY
            } by {
                assert(old(self).subs@.contains_key(old_mb[k].id));
            }
            assert forall|x: u64| #[trigger] self.subs@.contains_key(x) implies exists|k: int|
                0 <= k < mb.len() && mb[k].id == x by {
                let k = choose|k: int| 0 <= k < old_mb.len() && old_mb[k].id == x;
                assert(mb[k].id == x);
            }
            assert forall|x: i64| #[trigger] self.channels@.contains(x) <==> exists|k: int|
                0 <= k < mb.len() && mb[k].conversation_id == x by {
                if self.channels@.contains(x) {
                    let k = choose|k: int| 0 <= k < old_mb.len() && old_mb[k].conversation_id == x;
                    assert(mb[k].conversation_id == x);
                }
                if exists|k: int| 0 <= k < mb.len() && mb[k].conversation_id == x {
                    let k = choose|k: int| 0 <= k < mb.len() && mb[k].conversation_id == x;
                    assert(old_mb[k].conversation_id == x);
                }
            }
            assert(self.queues@.dom() =~= self.subs@.dom());
        }
        out
    }

    /// Whether conversation `c` has a registry entry.
    pub fn has_channel(&self, c: i64) -> (r: bool)
        ensures
            r == self.channels().contains(c),
    {
        self.find_channel(c).is_some()
    }

    /// Whether the subscription is live.
    pub fn is_subscribed(&self, handle: Subscription) -> (r: bool)
        requires
            self.wf(),
        ensures
            r == self.subscriptions().contains_key(handle.id),
    {
        self.find_mailbox(handle.id).is_some()
    }
}

/// A conversation has a registry entry exactly when some live subscription listens to it.
pub proof fn lemma_channel_iff_subscribed(r: ChannelRegistry, c: i64)
    requires
        r.wf(),
    ensures
        r.channels().contains(c) <==> exists|id: u64|
            r.subscriptions().contains_key(id) && r.subscriptions()[id] == c,
{
    let mb = r.mailboxes@;
    if r.channels().contains(c) {
        assert(r.channels@.contains(c));
        let i = choose|i: int| 0 <= i < mb.len() && mb[i].conversation_id == c;
        assert(r.subs@.contains_key(mb[i].id));
        assert(r.subscriptions().contains_key(mb[i].id) && r.subscriptions()[mb[i].id] == c);
    }
    if exists|id: u64| r.subscriptions().contains_key(id) && r.subscriptions()[id] == c {
        let id = choose|id: u64| r.subscriptions().contains_key(id) && r.subscriptions()[id] == c;
        let i = choose|i: int| 0 <= i < mb.len() && mb[i].id == id;
        assert(mb[i].conversation_id == c);
        assert(r.channels@.contains(c));
        assert(r.channels@.to_set().contains(c));
    }
}

/// Every live subscription has a mailbox, and no mailbox holds more than the capacity.
pub proof fn lemma_mailbox_per_subscription(r: ChannelRegistry)
    requires
        r.wf(),
    ensures
        r.pending().dom() == r.subscriptions().dom(),
        forall|id: u64| #[trigger] r.pending().contains_key(id) ==> r.pending()[id].len() <= CHANNEL_CAPACITY,
{
    assert forall|id: u64| #[trigger] r.pending().contains_key(id) implies r.pending()[id].len() <= CHANNEL_CAPACITY by {
        let i = choose|i: int| 0 <= i < r.mailboxes@.len() && r.mailboxes@[i].id == id;
    }
}

/// `regs[k + 1]` is `regs[k]` after publishing `msgs[k]` on conversation `c`, for every `k`.
pub open spec fn publishes_all(regs: Seq<ChannelRegistry>, c: i64, msgs: Seq<MessageResponse>) -> bool {
    &&& regs.len() == msgs.len() + 1
    &&& forall|k: int| 0 <= k < msgs.len() ==> publishes(#[trigger] regs[k], regs[k + 1], c, msgs[k])
}

/// Messages published one after another on conversation `c` reach every subscriber of `c`
/// that has room for them, each once and in publication order, after what it held before;
/// subscribers of other conversations receive none of them.
pub proof fn lemma_publications_in_order(regs: Seq<ChannelRegistry>, c: i64, msgs: Seq<MessageResponse>)
    requires
        regs.len() > 0,
        regs[0].wf(),
        publishes_all(regs, c, msgs),
    ensures
        regs.last().subscriptions() == regs[0].subscriptions(),
        forall|id: u64| #[trigger] regs[0].subscriptions().contains_key(id) ==> {
            let before = regs[0].pending()[id];
            let after = regs.last().pending()[id];
            &&& regs.last().pending().contains_key(id)
            &&& (regs[0].subscriptions()[id] == c && before.len() + msgs.len() <= CHANNEL_CAPACITY
                ==> after == before + msgs)
            &&& (regs[0].subscriptions()[id] != c ==> after == before)
        },
    decreases msgs.len(),
{
    lemma_mailbox_per_subscription(regs[0]);
    if msgs.len() > 0 {
        let k = msgs.len() - 1;
        let front = regs.drop_last();
        let first = msgs.drop_last();
        assert(publishes(regs[k], regs[k + 1], c, msgs[k]));
        assert forall|j: int| 0 <= j < first.len() implies publishes(#[trigger] front[j], front[j + 1], c, first[j]) by {
            assert(publishes(regs[j], regs[j + 1], c, msgs[j]));
        }
        lemma_publications_in_order(front, c, first);
        let mid = front.last();
        assert(mid == regs[k]);
        assert(front[0] == regs[0]);
        let last = regs.last();
        assert forall|id: u64| #[trigger] regs[0].subscriptions().contains_key(id) implies {
            let before = regs[0].pending()[id];
            let after = last.pending()[id];
            &&& last.pending().contains_key(id)
            &&& (regs[0].subscriptions()[id] == c && before.len() + msgs.len() <= CHANNEL_CAPACITY
                ==> after == before + msgs)
            &&& (regs[0].subscriptions()[id] != c ==> after == before)
        } by {
            let before = regs[0].pending()[id];
            assert(mid.pending().contains_key(id));
            let m = mid.pending()[id];
            if regs[0].subscriptions()[id] == c && before.len() + msgs.len() <= CHANNEL_CAPACITY {
                assert(m == before + first);
                assert(m.len() < CHANNEL_CAPACITY);
                assert(last.pending()[id] == m.push(msgs[k]));
                assert(before + msgs =~= (before + first).push(msgs[k]));
            }
        }
    } else {
        assert(regs.last() == regs[0]);
    }
}

/// Two messages published one after the other on conversation `c` reach every subscriber
/// of `c` in that order, as the last two messages of its mailbox, right after what it
/// held before when there was room; subscribers of other conversations receive neither.
pub proof fn lemma_publish_order(
    r0: ChannelRegistry,
    r1: ChannelRegistry,
    r2: ChannelRegistry,
    c: i64,
    m1: MessageResponse,
    m2: MessageResponse,
)
    requires
        r0.wf(),
        publishes(r0, r1, c, m1),
        publishes(r1, r2, c, m2),
    ensures
        forall|id: u64| #[trigger] r0.subscriptions().contains_key(id) ==> {
            let before = r0.pending()[id];
            let after = r2.pending()[id];
            if r0.subscriptions()[id] == c {
                &&& after.len() >= 2
                &&& after[after.len() - 2] == m1
                &&& after[after.len() - 1] == m2
                &&& (before.len() + 2 <= CHANNEL_CAPACITY ==> after == before + seq![m1, m2])
            } else {
                after == before
            }
        },
{
    assert forall|id: u64| #[trigger] r0.subscriptions().contains_key(id) implies {
        let before = r0.pending()[id];
        let after = r2.pending()[id];
        if r0.subscriptions()[id] == c {
            &&& after.len() >= 2
            &&& after[after.len() - 2] == m1
            &&& after[after.len() - 1] == m2
            &&& (before.len() + 2 <= CHANNEL_CAPACITY ==> after == before + seq![m1, m2])
        } else {
            after == before
        }
    } by {
        assert(r0.pending().contains_key(id));
        let before = r0.pending()[id];
        let mid = r1.pending()[id];
        let after = r2.pending()[id];
        assert(mid == enqueue(before, m1) || mid == before);
        if r0.subscriptions()[id] == c {
            assert(mid == enqueue(before, m1));
            assert(after == enqueue(mid, m2));
            assert(mid.len() >= 1 && mid[mid.len() - 1] == m1);
            if mid.len() < CHANNEL_CAPACITY {
                assert(after[after.len() - 2] == mid[mid.len() - 1]);
            } else {
                assert(after[after.len() - 2] == mid.drop_first()[mid.len() - 2]);
            }
            if before.len() + 2 <= CHANNEL_CAPACITY {
                assert(after =~= before + seq![m1, m2]);
            }
        }
    }
}

/// When a subscriber leaves while another subscriber of the same conversation remains,
/// the conversation keeps its channel.
pub proof fn lemma_channel_kept_while_subscribed(r0: ChannelRegistry, r1: ChannelRegistry, id: u64)
    requires
        r0.wf(),
        r0.subscriptions().contains_key(id),
        has_other_subscriber(r0.subscriptions(), r0.subscriptions()[id], id),
        unsubscribes(r0, r1, id),
    ensures
        r1.channels().contains(r0.subscriptions()[id]),
{
    lemma_channel_iff_subscribed(r0, r0.subscriptions()[id]);
}

/// When the last subscriber of a conversation leaves, its channel goes, and a message
/// published there right after reaches nobody: every mailbox stays as it was.
pub proof fn lemma_last_unsubscribe_drops_channel(
    r0: ChannelRegistry,
    r1: ChannelRegistry,
    r2: ChannelRegistry,
    id: u64,
    m: MessageResponse,
)
    requires
        r0.wf(),
        r0.subscriptions().contains_key(id),
        !has_other_subscriber(r0.subscriptions(), r0.subscriptions()[id], id),
        unsubscribes(r0, r1, id),
        publishes(r1, r2, r0.subscriptions()[id], m),
    ensures
        !r1.channels().contains(r0.subscriptions()[id]),
        r2.pending() == r1.pending(),
        r2.subscriptions() == r1.subscriptions(),
{
    let c = r0.subscriptions()[id];
    assert(r1.pending().dom() == r1.subscriptions().dom());
    assert forall|o: u64| r1.pending().contains_key(o) implies r1.subscriptions()[o] != c by {
        assert(o != id);
    }
    assert(r2.pending() =~= r1.pending());
}

} // verus!
