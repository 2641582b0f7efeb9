use argon2::password_hash::SaltString;
use argon2::{Argon2, PasswordHasher};
use spook_chat::auth::{login, parse_session_token, resolve, AuthError, LoginOutcome, Session, User};
use spook_chat::http::Method;
use spook_chat::servers::{join_server, Invite, JoinError};

fn hash(password: &str) -> String {
    let salt = SaltString::from_b64("c29tZXNhbHR2YWx1ZQ").unwrap();
    Argon2::default().hash_password(password.as_bytes(), &salt).unwrap().to_string()
}

fn user(id: u128, password_hash: String) -> User {
    User {
        user_id: id,
        email_address: "a@example.com".to_string(),
        username: "alice".to_string(),
        password: password_hash,
        created_at: 0,
    }
}

#[test]
fn token_parses_to_uuid_value() {
    assert_eq!(
        parse_session_token("f9e4c8e5-bad6-49b3-85ef-4a6d2c2edde4"),
        Ok(0xf9e4c8e5_bad6_49b3_85ef_4a6d2c2edde4u128)
    );
    assert_eq!(
        parse_session_token("f9e4c8e5bad649b385ef4a6d2c2edde4"),
        Ok(0xf9e4c8e5_bad6_49b3_85ef_4a6d2c2edde4u128)
    );
    assert_eq!(
        parse_session_token("{f9e4c8e5-bad6-49b3-85ef-4a6d2c2edde4}"),
        Ok(0xf9e4c8e5_bad6_49b3_85ef_4a6d2c2edde4u128)
    );
    assert_eq!(
        parse_session_token("urn:uuid:f9e4c8e5-bad6-49b3-85ef-4a6d2c2edde4"),
        Ok(0xf9e4c8e5_bad6_49b3_85ef_4a6d2c2edde4u128)
    );
    assert_eq!(
        parse_session_token("f9e4c8e5-bad6-49b3-85ef-4a6d2c2edde"),
        Err(AuthError::MalformedToken)
    );
    assert_eq!(parse_session_token("not-a-uuid"), Err(AuthError::MalformedToken));
    assert_eq!(parse_session_token(""), Err(AuthError::MalformedToken));
}

#[test]
fn resolve_needs_session_and_user() {
    let s = Session { session_id: 9, user_id: 1, created_at: 0 };
    let u = user(1, String::new());
    let ok = resolve(9, Some(s), Some(u.clone())).unwrap();
    assert_eq!(ok.0, u);
    assert_eq!(ok.1, s);
    assert_eq!(resolve(9, Some(s), None), Err(AuthError::Unauthenticated));
    assert_eq!(resolve(9, Some(s), Some(user(2, String::new()))), Err(AuthError::Unauthenticated));
    assert_eq!(resolve(10, Some(s), Some(u)), Err(AuthError::Unauthenticated));
}

#[test]
fn deleted_session_no_longer_resolves() {
    let s = Session { session_id: 9, user_id: 1, created_at: 0 };
    let u = user(1, String::new());
    assert!(resolve(9, Some(s), Some(u.clone())).is_ok());
    assert_eq!(resolve(9, None, Some(u)), Err(AuthError::Unauthenticated));
    assert_eq!(AuthError::Unauthenticated.status(), 401);
    assert_eq!(AuthError::WrongPassword.status(), 400);
    assert_eq!(AuthError::WrongEmail.status(), 400);
    assert_eq!(AuthError::MalformedToken.status(), 401);
    assert_eq!(AuthError::WrongEmail.message(), AuthError::WrongPassword.message());
    assert_eq!(AuthError::WrongEmail.message(), "Wrong E-Mail or Password");
}

#[test]
fn password_verification() {
    let u = user(1, hash("secret"));
    assert!(u.verify_password("secret"));
    assert!(!u.verify_password("Secret"));
    let broken = user(1, "not a hash".to_string());
    assert!(!broken.verify_password("not a hash"));
}

#[test]
fn login_outcomes() {
    let u = user(4, hash("pw"));
    assert_eq!(login(Some(&u), None, "whatever"), Ok(LoginOutcome::AlreadyLoggedIn(4)));
    assert_eq!(login(None, None, "pw"), Err(AuthError::WrongEmail));
    assert_eq!(login(None, Some(&u), "nope"), Err(AuthError::WrongPassword));
    assert_eq!(login(None, Some(&u), "pw"), Ok(LoginOutcome::StartSession(4)));
}

#[test]
fn invite_expiry() {
    let open = Invite { invite_id: 1, server_id: 2, created_at: 0, expires_at: None };
    let past = Invite { expires_at: Some(1_000), ..open };
    let future = Invite { expires_at: Some(i64::MAX), ..open };
    let now = chrono::Utc::now().timestamp_millis();
    assert!(open.is_valid_at(now));
    assert!(!past.is_valid_at(now));
    assert!(future.is_valid_at(now));
    assert!(past.is_valid_at(999));
    assert!(!past.is_valid_at(1_000));
    assert_eq!(join_server(Some(open), 5), Ok(2));
    assert_eq!(join_server(Some(past), 5_000), Err(JoinError::InviteExpired));
    assert_eq!(join_server(None, 5), Err(JoinError::InviteNotExist));
    assert_eq!(JoinError::InviteExpired.status(), 400);
    assert_eq!(JoinError::InviteExpired.message(), "This Invite has expired");
    assert_eq!(JoinError::InviteNotExist.message(), "This invite is invalid");
}

#[test]
fn route_tables() {
    let auth = spook_chat::auth::routes();
    assert_eq!(auth.len(), 5);
    assert_eq!(auth[1].path, "/login");
    assert_eq!(auth[1].method, Method::Post);
    let chat = spook_chat::chat::routes();
    assert_eq!(chat.len(), 2);
    assert_eq!(chat[0].path, "/subscribe");
    assert_eq!(chat[0].method, Method::Get);
    let servers = spook_chat::servers::routes();
    assert_eq!(servers.len(), 6);
    assert_eq!(servers[0].path, "/invite/<id>");
    assert_eq!(servers[5].path, "/user/unban");
}
