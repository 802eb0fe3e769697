use chat_backend::common::Error;
use chat_backend::conversation::{
    conversation_found, conversation_page, normalize_participants, plan_creation, plan_creation_at, Conversation,
    ConversationType, CreateConversationRequest,
};
use chat_backend::creation::{ConversationCreation, CreationStep, StoreReply};
use chat_backend::common::PageResponse;
use chat_backend::keys::create_private_id;

fn request(author_id: i64, kind: ConversationType, participants: Vec<i64>) -> CreateConversationRequest {
    CreateConversationRequest {
        author_id,
        conversation_type: kind,
        name: None,
        photo_url: None,
        participants,
    }
}

fn stored(id: i64) -> Conversation {
    Conversation {
        id,
        private_id: None,
        author_id: 1,
        conversation_type: ConversationType::GROUP,
        name: Some("team".to_string()),
        photo_url: None,
        deleted_at: None,
        created_at: 10,
        updated_at: 20,
    }
}

#[test]
fn private_key_is_symmetric() {
    assert_eq!(create_private_id(1, 2), "1#2");
    assert_eq!(create_private_id(2, 1), "1#2");
    assert_eq!(create_private_id(5, 3), create_private_id(3, 5));
    assert_eq!(create_private_id(-7, 10), "-7#10");
    assert_eq!(create_private_id(0, 0), "0#0");
    assert_eq!(create_private_id(i64::MAX, i64::MIN), format!("{}#{}", i64::MIN, i64::MAX));
    assert_eq!(create_private_id(1234567890, 42), "42#1234567890");
}

#[test]
fn private_scenario_author_one_with_two() {
    let plan = plan_creation_at(request(1, ConversationType::PRIVATE, vec![2]), 500).unwrap();
    assert_eq!(plan.conversation_type, ConversationType::PRIVATE);
    assert_eq!(plan.private_id.as_deref(), Some("1#2"));
    let row = plan.conversation_row(false).unwrap();
    assert_eq!(row.conversation_type, ConversationType::PRIVATE);
    assert_eq!(row.private_id.as_deref(), Some("1#2"));
    assert_eq!(row.author_id, 1);
    assert_eq!(row.created_at, 500);
    assert_eq!(row.updated_at, 500);
    assert!(row.deleted_at.is_none());
    let rows = plan.participant_rows(77);
    assert_eq!(rows.len(), 2);
    let one = rows.iter().find(|p| p.user_id == 1).unwrap();
    let two = rows.iter().find(|p| p.user_id == 2).unwrap();
    assert_eq!(one.roles, "ADMIN,PARTICIPANT");
    assert_eq!(two.roles, "PARTICIPANT");
    assert!(rows.iter().all(|p| p.conversation_id == 77 && p.joined_at == 500 && p.id == 0));

    let second = plan_creation_at(request(2, ConversationType::PRIVATE, vec![1]), 600).unwrap();
    assert_eq!(second.private_id.as_deref(), Some("1#2"));
    assert!(matches!(second.conversation_row(true), Err(Error::Conflict(_))));
}

#[test]
fn second_private_chat_conflicts_in_either_order() {
    let first = plan_creation(request(3, ConversationType::PRIVATE, vec![9])).unwrap();
    let same_order = plan_creation(request(3, ConversationType::PRIVATE, vec![9])).unwrap();
    let swapped = plan_creation(request(9, ConversationType::PRIVATE, vec![3])).unwrap();
    assert_eq!(first.private_id, same_order.private_id);
    assert_eq!(first.private_id, swapped.private_id);
    match swapped.conversation_row(true) {
        Err(Error::Conflict(m)) => assert_eq!(m, "Private conversation already exists"),
        other => panic!("expected a conflict, got {:?}", other),
    }
    assert!(matches!(same_order.conversation_row(true), Err(Error::Conflict(_))));
}

#[test]
fn group_rows_one_per_distinct_member() {
    let plan = plan_creation_at(request(1, ConversationType::GROUP, vec![3, 3, 2, 1, 2]), 1).unwrap();
    assert_eq!(plan.members, vec![3, 2, 1]);
    assert!(plan.private_id.is_none());
    let row = plan.conversation_row(true).unwrap();
    assert!(row.private_id.is_none());
    let rows = plan.participant_rows(5);
    assert_eq!(rows.len(), 3);
    assert_eq!(rows.iter().map(|p| p.user_id).collect::<Vec<_>>(), vec![3, 2, 1]);
    assert_eq!(rows[2].roles, "ADMIN,PARTICIPANT");
    assert_eq!(rows[0].roles, "PARTICIPANT");
    assert_eq!(rows[1].roles, "PARTICIPANT");
}

#[test]
fn normalization_appends_author_and_removes_repeats() {
    assert_eq!(normalize_participants(&vec![], 4), vec![4]);
    assert_eq!(normalize_participants(&vec![4, 4], 4), vec![4]);
    assert_eq!(normalize_participants(&vec![5, 6, 5, 7, 6], 1), vec![5, 6, 7, 1]);
    assert_eq!(normalize_participants(&vec![1, 2], 2), vec![1, 2]);
}

#[test]
fn private_chat_needs_exactly_two_members() {
    let alone = plan_creation(request(1, ConversationType::PRIVATE, vec![1]));
    assert!(matches!(alone, Err(Error::BadRequest(_))));
    let three = plan_creation(request(1, ConversationType::PRIVATE, vec![2, 3]));
    assert!(matches!(three, Err(Error::BadRequest(_))));
    let with_self = plan_creation(request(1, ConversationType::PRIVATE, vec![1, 2]));
    assert_eq!(with_self.unwrap().private_id.as_deref(), Some("1#2"));
}

#[test]
fn request_shape_is_validated() {
    let mut req = request(0, ConversationType::GROUP, vec![2]);
    assert!(matches!(plan_creation(req.clone()), Err(Error::BadRequest(_))));
    req.author_id = 1;
    req.name = Some("ab".to_string());
    assert!(matches!(plan_creation(req.clone()), Err(Error::BadRequest(_))));
    req.name = Some("a".repeat(51));
    assert!(matches!(plan_creation(req.clone()), Err(Error::BadRequest(_))));
    req.name = Some("ééé".to_string());
    assert!(plan_creation(req.clone()).is_ok());
    req.name = Some("a".repeat(50));
    assert!(plan_creation(req.clone()).is_ok());
    req.photo_url = Some("not a url".to_string());
    assert!(matches!(plan_creation(req.clone()), Err(Error::BadRequest(_))));
    req.photo_url = Some("https://example.com/p.png".to_string());
    assert!(plan_creation(req).is_ok());
}

fn stored_as(step: CreationStep, id: i64) -> StoreReply {
    match step {
        CreationStep::InsertConversation(mut c) => {
            c.id = id;
            StoreReply::ConversationStored(c)
        }
        other => panic!("expected a conversation insert, got {:?}", other),
    }
}

#[test]
fn private_creation_runs_through_the_store() {
    let plan = plan_creation_at(request(1, ConversationType::PRIVATE, vec![2]), 500).unwrap();
    let (mut run, step) = ConversationCreation::begin(plan);
    match step {
        CreationStep::CheckPrivateId(k) => assert_eq!(k, "1#2"),
        other => panic!("unexpected {:?}", other),
    }
    let step = run.advance(StoreReply::Checked(false));
    let reply = stored_as(step, 77);
    let mut inserted = Vec::new();
    let mut step = run.advance(reply);
    while let CreationStep::InsertParticipant(p) = step {
        inserted.push(p);
        step = run.advance(StoreReply::ParticipantStored);
    }
    match step {
        CreationStep::Commit(resp) => {
            assert_eq!(resp.id, 77);
            assert_eq!(resp.conversation_type, ConversationType::PRIVATE);
            assert_eq!(resp.private_id.as_deref(), Some("1#2"));
        }
        other => panic!("unexpected {:?}", other),
    }
    assert_eq!(inserted.len(), 2);
    assert_eq!((inserted[0].user_id, inserted[0].roles.as_str()), (2, "PARTICIPANT"));
    assert_eq!((inserted[1].user_id, inserted[1].roles.as_str()), (1, "ADMIN,PARTICIPANT"));
    assert!(inserted.iter().all(|p| p.conversation_id == 77));
    assert!(matches!(run.advance(StoreReply::ParticipantStored), CreationStep::Idle));
}

#[test]
fn taken_key_rolls_back_before_any_write() {
    let plan = plan_creation(request(2, ConversationType::PRIVATE, vec![1])).unwrap();
    let (mut run, step) = ConversationCreation::begin(plan);
    assert!(matches!(step, CreationStep::CheckPrivateId(_)));
    match run.advance(StoreReply::Checked(true)) {
        CreationStep::Rollback(Error::Conflict(m)) => assert_eq!(m, "Private conversation already exists"),
        other => panic!("unexpected {:?}", other),
    }
    assert!(matches!(run.advance(StoreReply::Checked(false)), CreationStep::Idle));
}

#[test]
fn second_participant_failure_rolls_back() {
    let plan = plan_creation_at(request(1, ConversationType::GROUP, vec![2, 3]), 5).unwrap();
    let (mut run, step) = ConversationCreation::begin(plan);
    let first = run.advance(stored_as(step, 9));
    assert!(matches!(first, CreationStep::InsertParticipant(ref p) if p.user_id == 2));
    let second = run.advance(StoreReply::ParticipantStored);
    assert!(matches!(second, CreationStep::InsertParticipant(ref p) if p.user_id == 3));
    let failure = Error::InternalServerError("insert failed".to_string());
    match run.advance(StoreReply::Failed(failure)) {
        CreationStep::Rollback(Error::InternalServerError(m)) => assert_eq!(m, "insert failed"),
        other => panic!("unexpected {:?}", other),
    }
    assert!(matches!(run.advance(StoreReply::ParticipantStored), CreationStep::Idle));
}

#[test]
fn unexpected_reply_rolls_back() {
    let plan = plan_creation(request(1, ConversationType::GROUP, vec![])).unwrap();
    let (mut run, step) = ConversationCreation::begin(plan);
    assert!(matches!(step, CreationStep::InsertConversation(_)));
    assert!(matches!(run.advance(StoreReply::ParticipantStored), CreationStep::Rollback(Error::InternalServerError(_))));
}

#[test]
fn conversation_type_reads_any_case() {
    assert_eq!(ConversationType::from_str("private").unwrap(), ConversationType::PRIVATE);
    assert_eq!(ConversationType::from_str("Group").unwrap(), ConversationType::GROUP);
    assert_eq!(ConversationType::from_str("PRIVATE").unwrap(), ConversationType::PRIVATE);
    match ConversationType::from_str("dm") {
        Err(Error::InternalServerError(m)) => assert_eq!(m, "unknown conversation type: dm"),
        other => panic!("unexpected {:?}", other),
    }
}

#[test]
fn conversation_lookup_and_pages() {
    let found = conversation_found(Some(stored(8))).unwrap();
    assert_eq!(found.id, 8);
    assert_eq!(found.name.as_deref(), Some("team"));
    assert_eq!(found.updated_at, 20);
    match conversation_found(None) {
        Err(Error::NotFound(m)) => assert_eq!(m, "Conversation not found"),
        other => panic!("unexpected {:?}", other),
    }
    let page = PageResponse { data: vec![stored(9), stored(4)], next_cursor: Some(4), size: 2 };
    let mapped = conversation_page(page);
    assert_eq!(mapped.data.iter().map(|c| c.id).collect::<Vec<_>>(), vec![9, 4]);
    assert_eq!(mapped.next_cursor, Some(4));
    assert_eq!(mapped.size, 2);
}
