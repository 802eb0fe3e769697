use std::sync::Arc;
use vstd::prelude::*;
use vstd::string::{StrSliceExecFns, StringExecFns};
use crate::common::Error;
use crate::keys::{decimal, parse_i64, parsed_i64, push_decimal};
use crate::user::{CreateUserRequest, User};
use crate::validate::{email_accepted, email_valid, length_within};

verus! {

/// The settings of the service.
#[derive(Debug, Clone)]
pub struct Config {
    pub database_url: String,
    pub port: u16,
    pub max_connections: u32,
    pub min_connections: u32,
    pub acquire_timeout_secs: u64,
    pub idle_timeout_secs: u64,
    pub access_token_key_secret: String,
    pub refresh_token_key_secret: String,
}

/// The caller of a request, as its bearer token names it.
#[derive(Debug, Clone, Copy, PartialEq, Eq, Structural)]
pub struct Auth {
    pub user_id: i64,
}

/// The tokens handed out on sign-up and sign-in.
#[derive(Debug, Clone)]
pub struct AuthResponse {
    pub access_token: String,
    pub refresh_token: String,
    pub user_id: i64,
}

/// The claims of a token: the user id as text, expiry and issue times in seconds, the username.
#[derive(Debug, Clone)]
pub struct Claim {
    pub sub: String,
    pub exp: i64,
    pub iat: i64,
    pub username: String,
}

#[derive(Debug, Clone)]
pub struct SignUpRequest {
    pub email: String,
    pub username: String,
    pub name: String,
    pub password: String,
}

#[derive(Debug, Clone)]
pub struct SignInRequest {
    pub username: String,
    pub password: String,
}

/// How long an access token lives, in seconds: ten minutes.
pub const ACCESS_TOKEN_LIFETIME_SECS: i64 = 600;
/// How long a refresh token lives, in seconds: seven days.
pub const REFRESH_TOKEN_LIFETIME_SECS: i64 = 604800;
/// The bcrypt cost of stored password hashes.
pub const PASSWORD_HASH_COST: u32 = 12;

/// The shape rules of a sign-up: an e-mail address of 1 to 64 characters, a username of
/// 1 to 10, a name of 1 to 64 and a password of 6 to 16.
pub open spec fn sign_up_valid(req: SignUpRequest) -> bool {
    &&& email_accepted(req.email@)
    &&& 1 <= req.email@.len() <= 64
    &&& 1 <= req.username@.len() <= 10
    &&& 1 <= req.name@.len() <= 64
    &&& 6 <= req.password@.len() <= 16
}

/// Checks the shape of a sign-up; any breach is a `BadRequest`.
pub fn validate_sign_up(req: &SignUpRequest) -> (r: Result<(), Error>)
    ensures
        r is Ok <==> sign_up_valid(*req),
        r matches Err(e) ==> e.is_bad_request(),
{
    if !email_valid(req.email.as_str()) {
        return Err(Error::BadRequest(String::from_str("email: Invalid email format. Please provide a valid email address.")));
    }
    if !length_within(req.email.as_str(), 1, 64) {
        return Err(Error::BadRequest(String::from_str("email: Email length must be between 1 and 64 characters.")));
    }
    if !length_within(req.username.as_str(), 1, 10) {
        return Err(Error::BadRequest(String::from_str("username: Username length must be between 1 and 10 characters.")));
    }
    if !length_within(req.name.as_str(), 1, 64) {
        return Err(Error::BadRequest(String::from_str("name: Name length must be between 1 and 64 characters.")));
    }
    if !length_within(req.password.as_str(), 6, 16) {
        return Err(Error::BadRequest(String::from_str("password: Password length must be between 6 and 16 characters.")));
    }
    Ok(())
}

/// Relies on `bcrypt::hash`: a salted hash of the password at the given cost, which
/// `bcrypt::verify` accepts for that password (it re-hashes with the cost and salt stored in
/// the hash). The salt is random, so nothing more is promised of the text; `None` stands for
/// bcrypt's error.
#[verifier::external_body]
pub(crate) fn hash_password(password: &str, cost: u32) -> (r: Option<String>)
    ensures
        r matches Some(h) ==> bcrypt_verdict(password@, h@) == Some(true),
{
    bcrypt::hash(password, cost).ok()
}

/// What `bcrypt::verify` answers for a password and a stored hash: whether they match, or
/// `None` where the hash is malformed.
pub uninterp spec fn bcrypt_verdict(password: Seq<char>, hash: Seq<char>) -> Option<bool>;

/// Relies on `bcrypt::verify`: it re-hashes the password with the cost and salt read from
/// the stored hash and compares; a malformed hash is its error, here `None`.
#[verifier::external_body]
fn verify_password(password: &str, hash: &str) -> (r: Option<bool>)
    ensures
        r == bcrypt_verdict(password@, hash@),
{
    bcrypt::verify(password, hash).ok()
}

/// Admits a sign-up, given whether its e-mail address and its username are already taken:
/// the shape rules first (`BadRequest`), then a taken e-mail, then a taken username
/// (`Conflict`). An admitted sign-up becomes a new user with a hashed password and no photo.
pub fn admit_sign_up(req: SignUpRequest, email_taken: bool, username_taken: bool) -> (r: Result<CreateUserRequest, Error>)
    ensures
        !sign_up_valid(req) ==> r matches Err(Error::BadRequest(_)),
        sign_up_valid(req) && email_taken ==> (r matches Err(Error::Conflict(m)) && m@ == "Email already exists"@),
        sign_up_valid(req) && !email_taken && username_taken ==> (r matches Err(Error::Conflict(m)) && m@ == "Username already exists"@),
        sign_up_valid(req) && !email_taken && !username_taken ==> (r is Ok || r matches Err(Error::InternalServerError(_))),
        r matches Ok(u) ==> {
            &&& u.username == req.username
            &&& u.email == req.email
            &&& u.name == req.name
            &&& u.photo_url is None
            &&& bcrypt_verdict(req.password@, u.password@) == Some(true)
        },
{
    validate_sign_up(&req)?;
    proof {
        reveal_strlit("Email already exists");
        reveal_strlit("Username already exists");
    }
    if email_taken {
        return Err(Error::Conflict(String::from_str("Email already exists")));
    }
    if username_taken {
        return Err(Error::Conflict(String::from_str("Username already exists")));
    }
    let password = match hash_password(req.password.as_str(), PASSWORD_HASH_COST) {
        Some(h) => h,
        None => return Err(Error::InternalServerError(String::from_str("cannot hash the password"))),
    };
    Ok(CreateUserRequest {
        username: req.username,
        email: req.email,
        password,
        name: req.name,
        photo_url: None,
    })
}

/// Checks a password against a stored hash: a mismatch is a `BadRequest`, a malformed hash
/// an `InternalServerError`.
pub fn check_password(password: &str, hash: &str) -> (r: Result<(), Error>)
    ensures
        match bcrypt_verdict(password@, hash@) {
            Some(true) => r is Ok,
            Some(false) => r matches Err(Error::BadRequest(m)) && m@ == "Password does not match"@,
            None => r matches Err(Error::InternalServerError(_)),
        },
{
    proof { reveal_strlit("Password does not match"); }
    match verify_password(password, hash) {
        Some(true) => Ok(()),
        Some(false) => Err(Error::BadRequest(String::from_str("Password does not match"))),
        None => Err(Error::InternalServerError(String::from_str("stored password hash is malformed"))),
    }
}

/// Admits a sign-in: the user found by username or e-mail address, whose stored hash must
/// match the password. No user is `NotFound`.
pub fn admit_sign_in(found: Option<User>, req: &SignInRequest) -> (r: Result<User, Error>)
    ensures
        match found {
            None => r matches Err(Error::NotFound(m)) && m@ == "User not found"@,
            Some(u) => match bcrypt_verdict(req.password@, u.password@) {
                Some(true) => r == Ok::<User, Error>(u),
                Some(false) => r matches Err(Error::BadRequest(_)),
                None => r matches Err(Error::InternalServerError(_)),
            },
        },
{
    match found {
        None => {
            proof { reveal_strlit("User not found"); }
            Err(Error::NotFound(String::from_str("User not found")))
        },
        Some(u) => {
            check_password(req.password.as_str(), u.password.as_str())?;
            Ok(u)
        },
    }
}

/// The claims of a token for a user, issued at `now` (seconds) and living `lifetime` seconds.
pub fn claim_for(user_id: i64, username: &str, now: i64, lifetime: i64) -> (r: Claim)
    requires
        0 <= lifetime,
        now <= i64::MAX - lifetime,
    ensures
        r.sub@ == decimal(user_id as int),
        r.username@ == username@,
        r.iat == now,
        r.exp == now + lifetime,
{
    let mut sub = String::new();
    push_decimal(user_id, &mut sub);
    assert(sub@ =~= decimal(user_id as int));
    Claim { sub, exp: now + lifetime, iat: now, username: String::from_str(username) }
}

/// The claims of an access token: ten minutes of life.
pub fn access_claim(user_id: i64, username: &str, now: i64) -> (r: Claim)
    requires
        now <= i64::MAX - ACCESS_TOKEN_LIFETIME_SECS,
    ensures
        r.sub@ == decimal(user_id as int),
        r.username@ == username@,
        r.iat == now,
        r.exp == now + ACCESS_TOKEN_LIFETIME_SECS,
{
    claim_for(user_id, username, now, ACCESS_TOKEN_LIFETIME_SECS)
}

/// The claims of a refresh token: seven days of life.
pub fn refresh_claim(user_id: i64, username: &str, now: i64) -> (r: Claim)
    requires
        now <= i64::MAX - REFRESH_TOKEN_LIFETIME_SECS,
    ensures
        r.sub@ == decimal(user_id as int),
        r.username@ == username@,
        r.iat == now,
        r.exp == now + REFRESH_TOKEN_LIFETIME_SECS,
{
    claim_for(user_id, username, now, REFRESH_TOKEN_LIFETIME_SECS)
}

/// The token in an `Authorization` header: what follows its first seven characters
/// (`Bearer `). A shorter header is `UnAuthorized`.
pub fn bearer_token(header: &str) -> (r: Result<String, Error>)
    ensures
        header@.len() < 7 <==> r is Err,
        match r {
            Ok(t) => t@ == header@.subrange(7, header@.len() as int),
            Err(e) => e matches Error::UnAuthorized(m) && m@ == "Invalid authorization bearer token"@,
        },
{
    proof { reveal_strlit("Invalid authorization bearer token"); }
    let len = header.unicode_len();
    if len < 7 {
        return Err(Error::UnAuthorized(String::from_str("Invalid authorization bearer token")));
    }
    Ok(String::from_str(header.substring_char(7, len)))
}

/// The caller named by verified claims: the user id written in `sub`. A `sub` that is not a
/// number is `UnAuthorized`.
pub fn auth_from_claim(claim: &Claim) -> (r: Result<Auth, Error>)
    ensures
        match parsed_i64(claim.sub@) {
            Some(n) => r == Ok::<Auth, Error>(Auth { user_id: n }),
            None => r matches Err(Error::UnAuthorized(_)),
        },
{
    match parse_i64(claim.sub.as_str()) {
        Some(n) => Ok(Auth { user_id: n }),
        None => Err(Error::UnAuthorized(String::from_str("Invalid token subject"))),
    }
}

/// The reading side of authentication: it holds the settings that token checks need.
#[derive(Debug, Clone)]
pub struct AuthReadServiceImpl {
    config: Arc<Config>,
}

impl AuthReadServiceImpl {
    pub fn new(config: Arc<Config>) -> (r: AuthReadServiceImpl)
        ensures
            r.config() == config,
    {
        AuthReadServiceImpl { config }
    }

    pub closed spec fn config(&self) -> Arc<Config> {
        self.config
    }

    /// The secret that access tokens are signed with.
    pub fn access_secret(&self) -> (r: &String)
        ensures
            *r == self.config().access_token_key_secret,
    {
        &self.config.access_token_key_secret
    }
}

/// The HTTP handler of sign-up and sign-in, over a writing authentication service.
pub struct AuthHandler<W> {
    pub auth_write_service: Arc<W>,
}

impl<W> AuthHandler<W> {
    pub fn new(auth_write_service: Arc<W>) -> (r: AuthHandler<W>)
        ensures
            r.auth_write_service == auth_write_service,
    {
        AuthHandler { auth_write_service }
    }
}

/// What every request handler can reach.
#[derive(Clone)]
pub struct AppState {
    pub auth_read_service: Arc<AuthReadServiceImpl>,
}

} // verus!
