use vstd::prelude::*;
use vstd::string::StringExecFns;
use crate::clock::now_micros;
use crate::common::{Error, PageResponse};
use crate::keys::{create_private_id, private_key};
use crate::validate::{length_within, url_parses, url_valid};

verus! {

/// Microseconds since the Unix epoch.
pub type Timestamp = i64;

/// A conversation is either a private chat between two users or a group.
#[allow(non_camel_case_types)]
#[derive(Debug, Clone, Copy, PartialEq, Eq, Structural)]
pub enum ConversationType {
    PRIVATE,
    GROUP,
}

/// What `str::to_uppercase` makes of a text.
pub uninterp spec fn upper_of(s: Seq<char>) -> Seq<char>;

/// Relies on `str::to_uppercase`: the result depends on the characters alone.
#[verifier::external_body]
fn uppercase(s: &str) -> (r: String)
    ensures
        r@ == upper_of(s@),
{
    s.to_uppercase()
}

/// The conversation type named by a text, in any letter case.
pub open spec fn type_named(s: Seq<char>) -> Option<ConversationType> {
    if upper_of(s) == "PRIVATE"@ {
        Some(ConversationType::PRIVATE)
    } else if upper_of(s) == "GROUP"@ {
        Some(ConversationType::GROUP)
    } else {
        None
    }
}

impl ConversationType {
    /// Reads a conversation type, ignoring letter case.
    pub fn from_str(s: &str) -> (r: Result<ConversationType, Error>)
        ensures
            match type_named(s@) {
                Some(t) => r == Ok::<ConversationType, Error>(t),
                None => r matches Err(Error::InternalServerError(_)),
            },
    {
        let upper = uppercase(s);
        let private = String::from_str("PRIVATE");
        let group = String::from_str("GROUP");
        proof {
            reveal_strlit("PRIVATE");
            reveal_strlit("GROUP");
        }
        if upper == private {
            Ok(ConversationType::PRIVATE)
        } else if upper == group {
            Ok(ConversationType::GROUP)
        } else {
            let mut message = String::from_str("unknown conversation type: ");
            message.append(s);
            Err(Error::InternalServerError(message))
        }
    }
}

/// A stored conversation.
#[derive(Debug, Clone)]
pub struct Conversation {
    pub id: i64,
    pub private_id: Option<String>,
    pub author_id: i64,
    pub conversation_type: ConversationType,
    pub name: Option<String>,
    pub photo_url: Option<String>,
    pub deleted_at: Option<Timestamp>,
    pub created_at: Timestamp,
    pub updated_at: Timestamp,
}

impl Conversation {
    /// An exact copy of the row.
    pub fn duplicate(&self) -> (r: Conversation)
        ensures
            r == *self,
    {
        Conversation {
            id: self.id,
            private_id: self.private_id.clone(),
            author_id: self.author_id,
            conversation_type: self.conversation_type,
            name: self.name.clone(),
            photo_url: self.photo_url.clone(),
            deleted_at: self.deleted_at,
            created_at: self.created_at,
            updated_at: self.updated_at,
        }
    }
}

/// The public shape of a conversation.
#[derive(Debug, Clone)]
pub struct ConversationResponse {
    pub id: i64,
    pub private_id: Option<String>,
    pub author_id: i64,
    pub conversation_type: ConversationType,
    pub name: Option<String>,
    pub photo_url: Option<String>,
    pub deleted_at: Option<Timestamp>,
    pub created_at: Timestamp,
    pub updated_at: Timestamp,
}

impl ConversationResponse {
    /// The public shape of a stored conversation: every field carried over.
    pub fn from(conversation: Conversation) -> (r: ConversationResponse)
        ensures
            r.id == conversation.id,
            r.private_id == conversation.private_id,
            r.author_id == conversation.author_id,
            r.conversation_type == conversation.conversation_type,
            r.name == conversation.name,
            r.photo_url == conversation.photo_url,
            r.deleted_at == conversation.deleted_at,
            r.created_at == conversation.created_at,
            r.updated_at == conversation.updated_at,
    {
        ConversationResponse {
            id: conversation.id,
            private_id: conversation.private_id,
            author_id: conversation.author_id,
            conversation_type: conversation.conversation_type,
            name: conversation.name,
            photo_url: conversation.photo_url,
            deleted_at: conversation.deleted_at,
            created_at: conversation.created_at,
            updated_at: conversation.updated_at,
        }
    }
}

/// A request to create a conversation; `participants` may repeat ids and may omit the author.
#[derive(Debug, Clone)]
pub struct CreateConversationRequest {
    pub author_id: i64,
    pub conversation_type: ConversationType,
    pub name: Option<String>,
    pub photo_url: Option<String>,
    pub participants: Vec<i64>,
}

#[derive(Debug, Clone)]
pub struct UpdateConversationRequest {
    pub conversation_type: ConversationType,
    pub name: Option<String>,
    pub photo_url: Option<String>,
}

#[derive(Debug, Clone, Copy)]
pub struct DeleteConversationRequest {
    pub author_id: i64,
    pub conversation_id: i64,
}

/// A participant row: one user in one conversation.
#[derive(Debug, Clone)]
pub struct Participant {
    pub id: i64,
    pub conversation_id: i64,
    pub user_id: i64,
    pub joined_at: Timestamp,
    pub roles: String,
    pub deleted_at: Option<Timestamp>,
    pub created_at: Timestamp,
}

impl Participant {
    /// An exact copy of the row.
    pub fn duplicate(&self) -> (r: Participant)
        ensures
            r == *self,
    {
        Participant {
            id: self.id,
            conversation_id: self.conversation_id,
            user_id: self.user_id,
            joined_at: self.joined_at,
            roles: self.roles.clone(),
            deleted_at: self.deleted_at,
            created_at: self.created_at,
        }
    }
}

pub const MIN_NAME_LEN: u64 = 3;
pub const MAX_NAME_LEN: u64 = 50;

/// The shape rules of a creation request: a positive author, a name of 3 to 50
/// characters when given, a parsable photo URL when given.
pub open spec fn request_valid(req: CreateConversationRequest) -> bool {
    &&& req.author_id >= 1
    &&& match req.name {
        Some(n) => MIN_NAME_LEN <= n@.len() <= MAX_NAME_LEN,
        None => true,
    }
    &&& match req.photo_url {
        Some(u) => url_parses(u@),
        None => true,
    }
}

fn validate_request(req: &CreateConversationRequest) -> (r: Result<(), Error>)
    ensures
        r is Ok <==> request_valid(*req),
        r matches Err(e) ==> e.is_bad_request(),
{
    if req.author_id < 1 {
        return Err(Error::BadRequest(String::from_str("author_id: must be at least 1")));
    }
    if let Some(name) = &req.name {
        if !length_within(name.as_str(), MIN_NAME_LEN, MAX_NAME_LEN) {
            return Err(Error::BadRequest(String::from_str("name: length must be between 3 and 50")));
        }
    }
    if let Some(url) = &req.photo_url {
        if !url_valid(url.as_str()) {
            return Err(Error::BadRequest(String::from_str("photo_url: must be a valid URL")));
        }
    }
    Ok(())
}

/// A sequence with repeats removed, each value kept where it first occurs.
pub open spec fn dedup_first(s: Seq<i64>) -> Seq<i64>
    decreases s.len(),
{
    if s.len() == 0 {
        s
    } else {
        let d = dedup_first(s.drop_last());
        if d.contains(s.last()) {
            d
        } else {
            d.push(s.last())
        }
    }
}

/// The participants of a new conversation: the requested ones, then the author, without repeats.
pub open spec fn normalized(participants: Seq<i64>, author_id: i64) -> Seq<i64> {
    dedup_first(participants.push(author_id))
}

/// A value occurs in a non-empty sequence when it occurs before the last place or is the last.
proof fn lemma_contains_split(s: Seq<i64>, x: i64)
    requires
        s.len() > 0,
    ensures
        s.contains(x) <==> (s.drop_last().contains(x) || x == s.last()),
{
    let t = s.drop_last();
    if s.contains(x) && x != s.last() {
        let k = choose|k: int| 0 <= k < s.len() && s[k] == x;
        assert(k < s.len() - 1);
        assert(t[k] == x);
    }
    if t.contains(x) {
        let k = choose|k: int| 0 <= k < t.len() && t[k] == x;
        assert(s[k] == x);
    }
    if x == s.last() {
        assert(s[s.len() - 1] == x);
    }
}

/// Removing repeats keeps exactly the values of the sequence, each once.
pub proof fn lemma_dedup_first(s: Seq<i64>)
    ensures
        dedup_first(s).no_duplicates(),
        forall|x: i64| dedup_first(s).contains(x) <==> s.contains(x),
    decreases s.len(),
{
    if s.len() > 0 {
        let t = s.drop_last();
        let l = s.last();
        lemma_dedup_first(t);
        let d = dedup_first(t);
        if !d.contains(l) {
            let e = d.push(l);
            assert forall|i: int, j: int| 0 <= i < e.len() && 0 <= j < e.len() && i != j implies e[i]
                != e[j] by {
                if i == d.len() {
                    assert(d[j] == e[j]);
                } else if j == d.len() {
                    assert(d[i] == e[i]);
                }
            }
            assert forall|x: i64| e.contains(x) <==> (d.contains(x) || x == l) by {
                lemma_contains_split(e, x);
                assert(e.drop_last() =~= d);
            }
        }
        assert forall|x: i64| dedup_first(s).contains(x) <==> s.contains(x) by {
            lemma_contains_split(s, x);
        }
    }
}

/// The participants of a new conversation are the requested ones and the author, each once.
pub proof fn lemma_normalized_members(participants: Seq<i64>, author_id: i64)
    ensures
        normalized(participants, author_id).no_duplicates(),
        normalized(participants, author_id).contains(author_id),
        forall|x: i64| normalized(participants, author_id).contains(x)
            <==> (participants.contains(x) || x == author_id),
{
    let s = participants.push(author_id);
    lemma_dedup_first(s);
    assert(s.drop_last() =~= participants);
    assert forall|x: i64| s.contains(x) <==> (participants.contains(x) || x == author_id) by {
        lemma_contains_split(s, x);
    }
    assert(s.contains(author_id));
}

fn contains_id(v: &Vec<i64>, x: i64) -> (r: bool)
    ensures
        r == v@.contains(x),
{
    let mut i: usize = 0;
    while i < v.len()
        invariant
            i <= v.len(),
            forall|k: int| 0 <= k < i ==> v@[k] != x,
        decreases v.len() - i,
    {
        if v[i] == x {
            return true;
        }
        i += 1;
    }
    false
}

/// The participants of a new conversation: the requested ones with the author appended,
/// repeats removed, first occurrence kept.
pub fn normalize_participants(participants: &Vec<i64>, author_id: i64) -> (r: Vec<i64>)
    ensures
        r@ == normalized(participants@, author_id),
{
    let mut out: Vec<i64> = Vec::new();
    let mut i: usize = 0;
    while i < participants.len()
        invariant
            i <= participants.len(),
            out@ == dedup_first(participants@.take(i as int)),
        decreases participants.len() - i,
    {
        let x = participants[i];
        assert(participants@.take(i + 1).drop_last() =~= participants@.take(i as int));
        if !contains_id(&out, x) {
            out.push(x);
        }
        i += 1;
    }
    assert(participants@.take(i as int) =~= participants@);
    assert(participants@.push(author_id).drop_last() =~= participants@);
    if !contains_id(&out, author_id) {
        out.push(author_id);
    }
    out
}

/// The role tags of a participant row: the author is an administrator and a participant.
pub open spec fn roles_of(user_id: i64, author_id: i64) -> Seq<char> {
    if user_id == author_id {
        "ADMIN,PARTICIPANT"@
    } else {
        "PARTICIPANT"@
    }
}

fn roles_for(user_id: i64, author_id: i64) -> (r: String)
    ensures
        r@ == roles_of(user_id, author_id),
{
    proof {
        reveal_strlit("ADMIN,PARTICIPANT");
        reveal_strlit("PARTICIPANT");
    }
    if user_id == author_id {
        String::from_str("ADMIN,PARTICIPANT")
    } else {
        String::from_str("PARTICIPANT")
    }
}

/// What a valid creation request is turned into, before anything is written.
#[derive(Debug, Clone)]
pub struct CreationPlan {
    pub author_id: i64,
    pub conversation_type: ConversationType,
    pub name: Option<String>,
    pub photo_url: Option<String>,
    pub private_id: Option<String>,
    pub members: Vec<i64>,
    pub created_at: Timestamp,
}

/// Whether a request can be planned: it is valid, and a private chat has exactly two members.
pub open spec fn plannable(req: CreateConversationRequest) -> bool {
    &&& request_valid(req)
    &&& (req.conversation_type == ConversationType::PRIVATE
        ==> normalized(req.participants@, req.author_id).len() == 2)
}

/// The plan of a creation request at time `p.created_at`, as `plan_creation_at` makes it.
pub open spec fn plan_of(req: CreateConversationRequest, p: CreationPlan) -> bool {
    let members = normalized(req.participants@, req.author_id);
    &&& p.author_id == req.author_id
    &&& p.conversation_type == req.conversation_type
    &&& p.name == req.name
    &&& p.photo_url == req.photo_url
    &&& p.members@ == members
    &&& match req.conversation_type {
        ConversationType::PRIVATE => p.private_id matches Some(k) && k@ == private_key(
            members[0],
            members[1],
        ),
        ConversationType::GROUP => p.private_id is None,
    }
}

/// Validates a creation request made at time `now`, normalises its participants and derives
/// the private-pair key of a private chat. Fails with `BadRequest` exactly when the request
/// cannot be planned.
pub fn plan_creation_at(req: CreateConversationRequest, now: Timestamp) -> (r: Result<CreationPlan, Error>)
    ensures
        r is Ok <==> plannable(req),
        match r {
            Ok(p) => plan_of(req, p) && p.created_at == now,
            Err(e) => e.is_bad_request(),
        },
{
    validate_request(&req)?;
    let members = normalize_participants(&req.participants, req.author_id);
    let private_id = match req.conversation_type {
        ConversationType::PRIVATE => {
            if members.len() != 2 {
                return Err(Error::BadRequest(String::from_str("Private chat must have 2 participants")));
            }
            Some(create_private_id(members[0], members[1]))
        },
        ConversationType::GROUP => None,
    };
    Ok(CreationPlan {
        author_id: req.author_id,
        conversation_type: req.conversation_type,
        name: req.name,
        photo_url: req.photo_url,
        private_id,
        members,
        created_at: now,
    })
}

/// As `plan_creation_at`, stamped with the current time.
pub fn plan_creation(req: CreateConversationRequest) -> (r: Result<CreationPlan, Error>)
    ensures
        r is Ok <==> plannable(req),
        match r {
            Ok(p) => plan_of(req, p),
            Err(e) => e.is_bad_request(),
        },
{
    let now = now_micros();
    plan_creation_at(req, now)
}

/// The conversation row a plan inserts: no id yet, the plan's fields, stamped with its time.
pub open spec fn conversation_row_of(p: CreationPlan, c: Conversation) -> bool {
    &&& c.id == 0
    &&& c.private_id == p.private_id
    &&& c.author_id == p.author_id
    &&& c.conversation_type == p.conversation_type
    &&& c.name == p.name
    &&& c.photo_url == p.photo_url
    &&& c.deleted_at is None
    &&& c.created_at == p.created_at
    &&& c.updated_at == p.created_at
}

/// The participant row of member `i` of a plan, in the stored conversation `conversation_id`.
pub open spec fn participant_row_of(p: CreationPlan, i: int, conversation_id: i64, r: Participant) -> bool {
    &&& r.user_id == p.members@[i]
    &&& r.id == 0
    &&& r.conversation_id == conversation_id
    &&& r.roles@ == roles_of(p.members@[i], p.author_id)
    &&& r.joined_at == p.created_at
    &&& r.created_at == p.created_at
    &&& r.deleted_at is None
}

impl CreationPlan {
    /// The conversation row to insert, given whether a conversation with the plan's
    /// private-pair key already exists. A taken key is a `Conflict`.
    pub fn conversation_row(&self, private_taken: bool) -> (r: Result<Conversation, Error>)
        ensures
            r is Err <==> (self.private_id is Some && private_taken),
            match r {
                Ok(c) => conversation_row_of(*self, c),
                Err(e) => e.is_conflict(),
            },
    {
        if self.private_id.is_some() && private_taken {
            return Err(Error::Conflict(String::from_str("Private conversation already exists")));
        }
        Ok(Conversation {
            id: 0,
            private_id: self.private_id.clone(),
            author_id: self.author_id,
            conversation_type: self.conversation_type,
            name: self.name.clone(),
            photo_url: self.photo_url.clone(),
            deleted_at: None,
            created_at: self.created_at,
            updated_at: self.created_at,
        })
    }

    /// One participant row per member, in order, for the stored conversation `conversation_id`;
    /// the author's row carries `ADMIN,PARTICIPANT`, every other `PARTICIPANT`.
    pub fn participant_rows(&self, conversation_id: i64) -> (r: Vec<Participant>)
        ensures
            r@.len() == self.members@.len(),
            forall|i: int| 0 <= i < r@.len() ==> participant_row_of(*self, i, conversation_id, #[trigger] r@[i]),
    {
        let mut rows: Vec<Participant> = Vec::new();
        let mut i: usize = 0;
        while i < self.members.len()
            invariant
                i <= self.members@.len(),
                rows@.len() == i,
                forall|k: int| 0 <= k < i ==> participant_row_of(*self, k, conversation_id, #[trigger] rows@[k]),
            decreases self.members@.len() - i,
        {
            let user_id = self.members[i];
            rows.push(Participant {
                id: 0,
                conversation_id,
                user_id,
                joined_at: self.created_at,
                roles: roles_for(user_id, self.author_id),
                deleted_at: None,
                created_at: self.created_at,
            });
            i += 1;
        }
        rows
    }
}

/// Two private chats between the same two users, whichever of them starts it, get the same
/// private-pair key; so once one exists, the other is refused as a conflict.
pub proof fn lemma_same_pair_same_key(
    req1: CreateConversationRequest,
    first: CreationPlan,
    req2: CreateConversationRequest,
    second: CreationPlan,
)
    requires
        req1.conversation_type == ConversationType::PRIVATE,
        req2.conversation_type == ConversationType::PRIVATE,
        plannable(req1),
        plannable(req2),
        plan_of(req1, first),
        plan_of(req2, second),
        forall|x: i64| #[trigger] normalized(req1.participants@, req1.author_id).contains(x)
            <==> normalized(req2.participants@, req2.author_id).contains(x),
    ensures
        first.private_id is Some,
        second.private_id is Some,
        first.private_id.unwrap()@ == second.private_id.unwrap()@,
{
    let m1 = normalized(req1.participants@, req1.author_id);
    let m2 = normalized(req2.participants@, req2.author_id);
    lemma_normalized_members(req1.participants@, req1.author_id);
    lemma_normalized_members(req2.participants@, req2.author_id);
    assert(m1.contains(m1[0]) && m1.contains(m1[1]));
    assert(m2.contains(m2[0]) && m2.contains(m2[1]));
    assert(m1[0] != m1[1]);
    assert(m2[0] != m2[1]);
    if m2[0] == m1[0] {
        assert(m2[1] == m1[1]);
    } else {
        assert(m2[0] == m1[1]);
        assert(m2[1] == m1[0]);
        crate::keys::lemma_private_key_symmetric(m1[0], m1[1]);
    }
}

/// A planned conversation gets one participant row per distinct user among the requested
/// participants and the author, and the author is among them.
pub proof fn lemma_one_row_per_member(req: CreateConversationRequest, p: CreationPlan)
    requires
        plan_of(req, p),
    ensures
        p.members@.no_duplicates(),
        p.members@.contains(req.author_id),
        p.members@.len() == (req.participants@.to_set().insert(req.author_id)).len(),
{
    let m = p.members@;
    lemma_normalized_members(req.participants@, req.author_id);
    assert(m.to_set() =~= req.participants@.to_set().insert(req.author_id));
    m.unique_seq_to_set();
}

/// The public shape of a conversation with every field carried over.
pub open spec fn conversation_response_of(c: Conversation, r: ConversationResponse) -> bool {
    &&& r.id == c.id
    &&& r.private_id == c.private_id
    &&& r.author_id == c.author_id
    &&& r.conversation_type == c.conversation_type
    &&& r.name == c.name
    &&& r.photo_url == c.photo_url
    &&& r.deleted_at == c.deleted_at
    &&& r.created_at == c.created_at
    &&& r.updated_at == c.updated_at
}

/// The answer to a lookup of a conversation: its public shape, or `NotFound`.
pub fn conversation_found(found: Option<Conversation>) -> (r: Result<ConversationResponse, Error>)
    ensures
        match found {
            Some(c) => r matches Ok(resp) && conversation_response_of(c, resp),
            None => r matches Err(Error::NotFound(m)) && m@ == "Conversation not found"@,
        },
{
    match found {
        Some(c) => Ok(ConversationResponse::from(c)),
        None => {
            proof { reveal_strlit("Conversation not found"); }
            Err(Error::NotFound(String::from_str("Conversation not found")))
        },
    }
}

/// A page of conversations in their public shape, in the same order, with the same cursor
/// and size.
pub fn conversation_page(page: PageResponse<Conversation>) -> (r: PageResponse<ConversationResponse>)
    ensures
        r.next_cursor == page.next_cursor,
        r.size == page.size,
        r.data@.len() == page.data@.len(),
        forall|i: int| 0 <= i < r.data@.len() ==> conversation_response_of(page.data@[i], #[trigger] r.data@[i]),
{
    let PageResponse { data, next_cursor, size } = page;
    let ghost all = data@;
    let mut rest = data;
    let mut out: Vec<ConversationResponse> = Vec::new();
    while rest.len() > 0
        invariant
            out@.len() + rest@.len() == all.len(),
            rest@ == all.subrange(out@.len() as int, all.len() as int),
            forall|i: int| 0 <= i < out@.len() ==> conversation_response_of(all[i], #[trigger] out@[i]),
        decreases rest@.len(),
    {
        let c = rest.remove(0);
        assert(c == all[out@.len() as int]);
        out.push(ConversationResponse::from(c));
        assert(rest@ =~= all.subrange(out@.len() as int, all.len() as int));
    }
    PageResponse { data: out, next_cursor, size }
}

} // verus!
