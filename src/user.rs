use vstd::prelude::*;
use vstd::string::StringExecFns;
use crate::auth::{bcrypt_verdict, hash_password, PASSWORD_HASH_COST};
use crate::common::{Error, PageResponse};
use crate::keys::{decimal, push_decimal};
use crate::conversation::Timestamp;

verus! {

/// A stored user; `password` is a bcrypt hash.
#[derive(Debug, Clone)]
pub struct User {
    pub id: i64,
    pub username: String,
    pub email: String,
    pub password: String,
    pub name: String,
    pub photo_url: Option<String>,
    pub deleted_at: Option<Timestamp>,
    pub created_at: Timestamp,
    pub updated_at: Timestamp,
}

#[derive(Debug, Clone)]
pub struct CreateUserRequest {
    pub username: String,
    pub email: String,
    pub password: String,
    pub name: String,
    pub photo_url: Option<String>,
}

#[derive(Debug, Clone)]
pub struct UpdateUserRequest {
    pub username: Option<String>,
    pub email: Option<String>,
    pub password: Option<String>,
    pub name: Option<String>,
    pub photo_url: Option<String>,
}

/// The public shape of a user: everything but the password hash.
#[derive(Debug, Clone)]
pub struct UserResponse {
    pub id: i64,
    pub username: String,
    pub email: String,
    pub name: String,
    pub photo_url: Option<String>,
    pub deleted_at: Option<Timestamp>,
    pub created_at: Timestamp,
    pub updated_at: Timestamp,
}

impl UserResponse {
    pub fn from(user: User) -> (r: UserResponse)
        ensures
            r.id == user.id,
            r.username == user.username,
            r.email == user.email,
            r.name == user.name,
            r.photo_url == user.photo_url,
            r.deleted_at == user.deleted_at,
            r.created_at == user.created_at,
            r.updated_at == user.updated_at,
    {
        UserResponse {
            id: user.id,
            username: user.username,
            email: user.email,
            name: user.name,
            photo_url: user.photo_url,
            deleted_at: user.deleted_at,
            created_at: user.created_at,
            updated_at: user.updated_at,
        }
    }
}

/// Whether a requested new value of a unique field clashes: it differs from the user's own
/// value and another user already has it.
pub open spec fn clashes(requested: Option<String>, current: String, taken: bool) -> bool {
    match requested {
        Some(v) => v@ != current@ && taken,
        None => false,
    }
}

/// The value a field takes after an update: the requested one, else the current one.
pub open spec fn merged(requested: Option<String>, current: String) -> String {
    match requested {
        Some(v) => v,
        None => current,
    }
}

/// Plans an update of `user`, given whether the requested username and e-mail address are
/// taken. A clash is a `Conflict` (the username is checked first). Otherwise every field
/// takes its requested value or keeps its current one; a new password is stored as a bcrypt
/// hash that verifies against it, and a failure of the hash is an `InternalServerError`.
pub fn plan_user_update(user: User, req: UpdateUserRequest, username_taken: bool, email_taken: bool) -> (r: Result<UpdateUserRequest, Error>)
    ensures
        clashes(req.username, user.username, username_taken) ==> (r matches Err(Error::Conflict(m)) && m@ == "Username already exists"@),
        !clashes(req.username, user.username, username_taken) && clashes(req.email, user.email, email_taken)
            ==> (r matches Err(Error::Conflict(m)) && m@ == "Email already exists"@),
        !clashes(req.username, user.username, username_taken) && !clashes(req.email, user.email, email_taken)
            ==> (r is Ok || (req.password is Some && r matches Err(Error::InternalServerError(_)))),
        r matches Ok(u) ==> {
            &&& u.username == Some(merged(req.username, user.username))
            &&& u.email == Some(merged(req.email, user.email))
            &&& u.name == Some(merged(req.name, user.name))
            &&& u.photo_url == match req.photo_url {
                Some(p) => Some(p),
                None => user.photo_url,
            }
            &&& u.password is Some
            &&& (req.password is None ==> u.password == Some(user.password))
            &&& (req.password matches Some(p) ==> bcrypt_verdict(p@, u.password->0@) == Some(true))
        },
{
    proof {
        reveal_strlit("Username already exists");
        reveal_strlit("Email already exists");
    }
    if let Some(username) = &req.username {
        if username_taken && *username != user.username {
            return Err(Error::Conflict(String::from_str("Username already exists")));
        }
    }
    if let Some(email) = &req.email {
        if email_taken && *email != user.email {
            return Err(Error::Conflict(String::from_str("Email already exists")));
        }
    }
    let password = match &req.password {
        Some(p) => match hash_password(p.as_str(), PASSWORD_HASH_COST) {
            Some(h) => h,
            None => return Err(Error::InternalServerError(String::from_str("cannot hash the password"))),
        },
        None => user.password,
    };
    let username = match req.username {
        Some(v) => v,
        None => user.username,
    };
    let email = match req.email {
        Some(v) => v,
        None => user.email,
    };
    let name = match req.name {
        Some(v) => v,
        None => user.name,
    };
    let photo_url = match req.photo_url {
        Some(p) => Some(p),
        None => user.photo_url,
    };
    Ok(UpdateUserRequest {
        username: Some(username),
        email: Some(email),
        password: Some(password),
        name: Some(name),
        photo_url,
    })
}

/// The public shape of a user with every field carried over.
pub open spec fn response_of(u: User, r: UserResponse) -> bool {
    &&& r.id == u.id
    &&& r.username == u.username
    &&& r.email == u.email
    &&& r.name == u.name
    &&& r.photo_url == u.photo_url
    &&& r.deleted_at == u.deleted_at
    &&& r.created_at == u.created_at
    &&& r.updated_at == u.updated_at
}

/// The answer to a lookup of user `user_id`: the user's public shape, or `NotFound`.
pub fn user_found(found: Option<User>, user_id: i64) -> (r: Result<UserResponse, Error>)
    ensures
        match found {
            Some(u) => r matches Ok(resp) && response_of(u, resp),
            None => r matches Err(Error::NotFound(m))
                && m@ == "User with id "@ + decimal(user_id as int) + " not found"@,
        },
{
    match found {
        Some(u) => Ok(UserResponse::from(u)),
        None => {
            proof {
                reveal_strlit("User with id ");
                reveal_strlit(" not found");
            }
            let mut m = String::from_str("User with id ");
            push_decimal(user_id, &mut m);
            m.append(" not found");
            Err(Error::NotFound(m))
        },
    }
}

/// A page of users in their public shape, in the same order, with the same cursor and size.
pub fn user_page(page: PageResponse<User>) -> (r: PageResponse<UserResponse>)
    ensures
        r.next_cursor == page.next_cursor,
        r.size == page.size,
        r.data@.len() == page.data@.len(),
        forall|i: int| 0 <= i < r.data@.len() ==> response_of(page.data@[i], #[trigger] r.data@[i]),
{
    let PageResponse { data, next_cursor, size } = page;
    let ghost all = data@;
    let mut rest = data;
    let mut out: Vec<UserResponse> = Vec::new();
    while rest.len() > 0
        invariant
            out@.len() + rest@.len() == all.len(),
            rest@ == all.subrange(out@.len() as int, all.len() as int),
            forall|i: int| 0 <= i < out@.len() ==> response_of(all[i], #[trigger] out@[i]),
        decreases rest@.len(),
    {
        let u = rest.remove(0);
        assert(u == all[out@.len() as int]);
        out.push(UserResponse::from(u));
        assert(rest@ =~= all.subrange(out@.len() as int, all.len() as int));
    }
    PageResponse { data: out, next_cursor, size }
}

} // verus!
