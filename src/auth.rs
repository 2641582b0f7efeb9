use vstd::prelude::*;

use crate::http::{is_route, Method, Route};

verus! {

/// A registered user, as the core sees it. `password` is the stored PHC hash
/// string; `created_at` is in milliseconds since the Unix epoch.
#[derive(Clone, Debug, PartialEq, Eq)]
pub struct User {
    pub user_id: u128,
    pub email_address: String,
    pub username: String,
    pub password: String,
    pub created_at: i64,
}

/// A login session: an opaque token bound to exactly one user.
#[derive(Clone, Copy, Debug, PartialEq, Eq, Structural)]
pub struct Session {
    pub session_id: u128,
    pub user_id: u128,
    pub created_at: i64,
}

/// Failures of authentication and login.
#[derive(Clone, Copy, Debug, PartialEq, Eq, Structural)]
pub enum AuthError {
    /// No session, an unknown or deleted one, or one whose user is gone.
    Unauthenticated,
    /// The credential does not hold a session identifier.
    MalformedToken,
    /// No user has the given e-mail address.
    WrongEmail,
    /// The password does not match the stored hash.
    WrongPassword,
}

/// The 128-bit value of a textual UUID, or `None` where the text is not one.
pub uninterp spec fn uuid_value(s: Seq<char>) -> Option<u128>;

/// Whether `password` matches the PHC hash string `hash`; `None` where `hash`
/// is not a well-formed password hash.
pub uninterp spec fn password_check(hash: Seq<char>, password: Seq<char>) -> Option<bool>;

/// The lengths of the textual UUID forms: simple, hyphenated, braced, URN.
pub open spec fn uuid_text_length(n: nat) -> bool {
    n == 32 || n == 36 || n == 38 || n == 45
}

/// Relies on uuid::Uuid::parse_str (and Uuid::as_u128): parses any of the
/// textual UUID forms into its 128-bit value, or fails. It accepts ASCII
/// input only, and only at the four lengths of those forms.
#[verifier::external_body]
fn parse_uuid(s: &str) -> (r: Option<u128>)
    ensures
        r == uuid_value(s@),
        r is Some ==> uuid_text_length(s@.len()),
{
    match uuid::Uuid::parse_str(s) {
        Ok(u) => Some(u.as_u128()),
        Err(_) => None,
    }
}

/// Relies on argon2's PasswordHash::new and PasswordVerifier::verify_password
/// with the default Argon2 context: parses the stored hash, then recomputes it
/// for `password` with the hash's own algorithm, parameters and salt.
#[verifier::external_body]
fn argon2_verify(hash: &str, password: &str) -> (r: Option<bool>)
    ensures
        r == password_check(hash@, password@),
{
    match argon2::PasswordHash::new(hash) {
        Ok(h) => Some(
            argon2::PasswordVerifier::verify_password(
                &argon2::Argon2::default(),
                password.as_bytes(),
                &h,
            ).is_ok(),
        ),
        Err(_) => None,
    }
}

/// Reads a session identifier out of a client credential.
pub fn parse_session_token(text: &str) -> (r: Result<u128, AuthError>)
    ensures
        match uuid_value(text@) {
            Some(id) => r == Ok::<u128, AuthError>(id),
            None => r == Err::<u128, AuthError>(AuthError::MalformedToken),
        },
        !uuid_text_length(text@.len()) ==> r == Err::<u128, AuthError>(AuthError::MalformedToken),
{
    match parse_uuid(text) {
        Some(id) => Ok(id),
        None => Err(AuthError::MalformedToken),
    }
}

/// Whether fresh look-ups of `token` resolve: the session exists and is
/// `token`'s, and the user it names exists.
pub open spec fn resolves(token: u128, session: Option<Session>, user: Option<User>) -> bool {
    &&& session is Some
    &&& session.unwrap().session_id == token
    &&& user is Some
    &&& user.unwrap().user_id == session.unwrap().user_id
}

/// Turns the results of looking up `token` (the session) and then the user it
/// names into an identity. No caching: each call decides on the rows it is given.
pub fn resolve(token: u128, session: Option<Session>, user: Option<User>) -> (r: Result<
    (User, Session),
    AuthError,
>)
    ensures
        r is Ok <==> resolves(token, session, user),
        r is Ok ==> r.unwrap().0 == user.unwrap() && r.unwrap().1 == session.unwrap(),
        !resolves(token, session, user) ==> r == Err::<(User, Session), AuthError>(
            AuthError::Unauthenticated,
        ),
{
    match session {
        None => Err(AuthError::Unauthenticated),
        Some(s) => {
            if s.session_id != token {
                return Err(AuthError::Unauthenticated);
            }
            match user {
                None => Err(AuthError::Unauthenticated),
                Some(u) => {
                    if u.user_id == s.user_id {
                        Ok((u, s))
                    } else {
                        Err(AuthError::Unauthenticated)
                    }
                },
            }
        },
    }
}

/// Once a session is deleted its token no longer resolves, whatever user rows
/// remain: the look-up finds no session and the resolver answers
/// `Unauthenticated`.
pub proof fn lemma_deleted_session_never_resolves(token: u128, user: Option<User>)
    ensures
        !resolves(token, None, user),
{
}

impl User {
    /// Whether `password` matches this user's stored hash. A stored hash that is
    /// not well formed matches nothing.
    pub fn verify_password(&self, password: &str) -> (r: bool)
        ensures
            r == (password_check(self.password@, password@) == Some(true)),
    {
        match argon2_verify(self.password.as_str(), password) {
            Some(b) => b,
            None => false,
        }
    }
}

/// What a login request leads to.
#[derive(Clone, Copy, Debug, PartialEq, Eq, Structural)]
pub enum LoginOutcome {
    /// The client's existing session already resolves to this user.
    AlreadyLoggedIn(u128),
    /// The credentials are right: open a new session for this user.
    StartSession(u128),
}

/// Decides a login. `current` is the user that the client's existing session
/// resolves to, if any; `by_email` is the user found under the given e-mail.
pub fn login(current: Option<&User>, by_email: Option<&User>, password: &str) -> (r: Result<
    LoginOutcome,
    AuthError,
>)
    ensures
        match current {
            Some(u) => r == Ok::<LoginOutcome, AuthError>(LoginOutcome::AlreadyLoggedIn(u.user_id)),
            None => match by_email {
                None => r == Err::<LoginOutcome, AuthError>(AuthError::WrongEmail),
                Some(u) => if password_check(u.password@, password@) == Some(true) {
                    r == Ok::<LoginOutcome, AuthError>(LoginOutcome::StartSession(u.user_id))
                } else {
                    r == Err::<LoginOutcome, AuthError>(AuthError::WrongPassword)
                },
            },
        },
{
    if let Some(u) = current {
        return Ok(LoginOutcome::AlreadyLoggedIn(u.user_id));
    }
    match by_email {
        None => Err(AuthError::WrongEmail),
        Some(u) => {
            if u.verify_password(password) {
                Ok(LoginOutcome::StartSession(u.user_id))
            } else {
                Err(AuthError::WrongPassword)
            }
        },
    }
}

/// The body text that reports an authentication error.
pub open spec fn auth_message(e: AuthError) -> Seq<char> {
    match e {
        AuthError::Unauthenticated => "You are not logged in"@,
        AuthError::MalformedToken => "You are not logged in"@,
        AuthError::WrongEmail => "Wrong E-Mail or Password"@,
        AuthError::WrongPassword => "Wrong E-Mail or Password"@,
    }
}

impl AuthError {
    /// The body text that reports this error.
    pub fn message(&self) -> (r: &'static str)
        ensures
            r@ == auth_message(*self),
    {
        proof {
            reveal_strlit("You are not logged in");
            reveal_strlit("Wrong E-Mail or Password");
        }
        match self {
            AuthError::Unauthenticated => "You are not logged in",
            AuthError::MalformedToken => "You are not logged in",
            AuthError::WrongEmail => "Wrong E-Mail or Password",
            AuthError::WrongPassword => "Wrong E-Mail or Password",
        }
    }

    /// The HTTP status that reports this error.
    pub fn status(&self) -> (r: u16)
        ensures
            r == match self {
                AuthError::Unauthenticated | AuthError::MalformedToken => 401u16,
                AuthError::WrongEmail | AuthError::WrongPassword => 400u16,
            },
    {
        match self {
            AuthError::Unauthenticated | AuthError::MalformedToken => 401,
            AuthError::WrongEmail | AuthError::WrongPassword => 400,
        }
    }
}

/// A wrong e-mail address and a wrong password get the same reply, status and
/// text alike, so a reply never tells whether an address is registered.
pub proof fn lemma_login_failures_alike()
    ensures
        auth_message(AuthError::WrongEmail) == auth_message(AuthError::WrongPassword),
{
}

/// The endpoints of authentication, in the order they are mounted.
pub fn routes() -> (r: Vec<Route>)
    ensures
        r@.len() == 5,
        is_route(r@[0], Method::Post, "/register"@),
        is_route(r@[1], Method::Post, "/login"@),
        is_route(r@[2], Method::Get, "/authenticated"@),
        is_route(r@[3], Method::Get, "/logout"@),
        is_route(r@[4], Method::Get, "/test"@),
{
    proof {
        reveal_strlit("/register");
        reveal_strlit("/login");
        reveal_strlit("/authenticated");
        reveal_strlit("/logout");
        reveal_strlit("/test");
    }
    let mut r: Vec<Route> = Vec::new();
    r.push(Route { method: Method::Post, path: "/register" });
    r.push(Route { method: Method::Post, path: "/login" });
    r.push(Route { method: Method::Get, path: "/authenticated" });
    r.push(Route { method: Method::Get, path: "/logout" });
    r.push(Route { method: Method::Get, path: "/test" });
    r
}

} // verus!
