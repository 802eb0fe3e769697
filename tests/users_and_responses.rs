use chat_backend::common::{next_cursor_of, ApiResponse, Error, PageRequest, PageResponse};
use chat_backend::user::{plan_user_update, user_found, user_page, UpdateUserRequest, User, UserResponse};

fn user(id: i64) -> User {
    User {
        id,
        username: "ada".to_string(),
        email: "ada@example.com".to_string(),
        password: "$2b$04$hash".to_string(),
        name: "Ada".to_string(),
        photo_url: Some("https://example.com/a.png".to_string()),
        deleted_at: None,
        created_at: 1,
        updated_at: 2,
    }
}

fn no_changes() -> UpdateUserRequest {
    UpdateUserRequest { username: None, email: None, password: None, name: None, photo_url: None }
}

#[test]
fn page_request_defaults() {
    let empty = PageRequest { cursor: None, size: None };
    assert_eq!(empty.size(), 10);
    assert_eq!(empty.cursor(), i64::MAX);
    let given = PageRequest { cursor: Some(55), size: Some(3) };
    assert_eq!(given.size(), 3);
    assert_eq!(given.cursor(), 55);
}

#[test]
fn next_cursor_is_last_id() {
    assert_eq!(next_cursor_of(&vec![]), None);
    assert_eq!(next_cursor_of(&vec![9, 7, 4]), Some(4));
    let page = PageResponse::from_rows(vec!["a", "b"], &vec![9, 8], &PageRequest { cursor: None, size: None });
    assert_eq!(page.next_cursor, Some(8));
    assert_eq!(page.size, 10);
    assert_eq!(page.data, vec!["a", "b"]);
}

#[test]
fn errors_map_to_status_codes() {
    let cases = vec![
        (Error::BadRequest("b".to_string()), 400),
        (Error::UnAuthorized("u".to_string()), 401),
        (Error::Forbidden("f".to_string()), 403),
        (Error::NotFound("n".to_string()), 404),
        (Error::Conflict("c".to_string()), 409),
        (Error::InternalServerError("i".to_string()), 500),
    ];
    for (error, code) in cases {
        assert_eq!(error.status_code(), code);
        let message = error.clone().into_message();
        let answer: ApiResponse<Option<i32>> = ApiResponse::from_error(error);
        assert_eq!(answer.status, code);
        assert!(answer.data.is_none());
        assert_eq!(answer.message, message);
    }
}

#[test]
fn results_become_answers() {
    let ok: ApiResponse<Option<i32>> = ApiResponse::from_result_ok(Ok(5));
    assert_eq!(ok.data, Some(5));
    assert_eq!(ok.status, 200);
    assert_eq!(ok.message, "Success!");
    let created: ApiResponse<Option<i32>> = ApiResponse::from_result(Ok(6), 201, "Created".to_string());
    assert_eq!(created.status, 201);
    assert_eq!(created.message, "Created");
    let failed: ApiResponse<Option<i32>> = ApiResponse::from_result_ok(Err(Error::Conflict("taken".to_string())));
    assert_eq!(failed.status, 409);
    assert_eq!(failed.message, "taken");
    assert!(failed.data.is_none());
    let success = ApiResponse::success(200, "x", "ok".to_string());
    assert_eq!(success.data, Some("x"));
}

#[test]
fn user_lookup_and_pages() {
    let found = user_found(Some(user(5)), 5).unwrap();
    assert_eq!(found.id, 5);
    assert_eq!(found.username, "ada");
    match user_found(None, 5) {
        Err(Error::NotFound(m)) => assert_eq!(m, "User with id 5 not found"),
        other => panic!("unexpected {:?}", other.map(|u| u.id)),
    }
    let page = user_page(PageResponse { data: vec![user(3), user(2)], next_cursor: Some(2), size: 2 });
    assert_eq!(page.data.iter().map(|u: &UserResponse| u.id).collect::<Vec<_>>(), vec![3, 2]);
    assert_eq!(page.next_cursor, Some(2));
    let empty = user_page(PageResponse { data: vec![], next_cursor: None, size: 10 });
    assert!(empty.data.is_empty());
}

#[test]
fn user_update_keeps_unrequested_fields() {
    let planned = plan_user_update(user(1), no_changes(), true, true).unwrap();
    assert_eq!(planned.username.as_deref(), Some("ada"));
    assert_eq!(planned.email.as_deref(), Some("ada@example.com"));
    assert_eq!(planned.name.as_deref(), Some("Ada"));
    assert_eq!(planned.password.as_deref(), Some("$2b$04$hash"));
    assert_eq!(planned.photo_url.as_deref(), Some("https://example.com/a.png"));

    let mut req = no_changes();
    req.name = Some("Ada L".to_string());
    req.username = Some("ada".to_string());
    let planned = plan_user_update(user(1), req, true, false).unwrap();
    assert_eq!(planned.name.as_deref(), Some("Ada L"));
    assert_eq!(planned.username.as_deref(), Some("ada"));
}

#[test]
fn user_update_conflicts_and_hashes() {
    let mut req = no_changes();
    req.username = Some("bob".to_string());
    req.email = Some("bob@example.com".to_string());
    match plan_user_update(user(1), req.clone(), true, true) {
        Err(Error::Conflict(m)) => assert_eq!(m, "Username already exists"),
        other => panic!("unexpected {:?}", other.map(|u| u.username)),
    }
    match plan_user_update(user(1), req.clone(), false, true) {
        Err(Error::Conflict(m)) => assert_eq!(m, "Email already exists"),
        other => panic!("unexpected {:?}", other.map(|u| u.username)),
    }
    let mut with_password = no_changes();
    with_password.password = Some("newsecret".to_string());
    let planned = plan_user_update(user(1), with_password, false, false).unwrap();
    let hash = planned.password.unwrap();
    assert_ne!(hash, "newsecret");
    assert!(bcrypt::verify("newsecret", &hash).unwrap());
}
