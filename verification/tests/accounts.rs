use feedcore::accounts::{
    authenticate, AddFeedRequest, CreateSessionRequest, CreateUserRequest, Password, Session,
    SessionResponse, User, SESSION_LIFETIME,
};
use feedcore::address::Link;
use feedcore::clock::Timestamp;
use feedcore::credentials::{hash_with_salt, sha512, SALT_LENGTH};
use feedcore::error::AppError;
use feedcore::text::extend;

fn stored(password: &str, salt: &str) -> Password {
    let hashed = hash_with_salt(password, salt.to_string());
    Password { id: 1, hash: hashed.hash, salt: hashed.salt, user_id: 42 }
}

#[test]
fn user_new_has_no_config() {
    let user = User::new(3, "a@example.com".to_string(), "ann".to_string());
    assert_eq!(user.id, 3);
    assert_eq!(user.email, "a@example.com");
    assert_eq!(user.username, "ann");
    assert!(user.config.is_none());
}

#[test]
fn password_new_hashes_under_fresh_salt() {
    let record = Password::new(9, "secret".to_string(), 3);
    assert_eq!(record.id, 9);
    assert_eq!(record.user_id, 3);
    assert_eq!(record.salt.len(), SALT_LENGTH);
    assert_eq!(record.hash, sha512(format!("secret{}", record.salt)));
    let again = Password::new(9, "secret".to_string(), 3);
    assert_eq!(again.hash, sha512(format!("secret{}", again.salt)));
}

#[test]
fn session_new_expires_after_a_week() {
    let session = Session::new(5, 3, Timestamp { unix_seconds: 1_700_000_000, offset_seconds: 0 });
    assert_eq!(SESSION_LIFETIME, 604800);
    assert_eq!(session.id, 5);
    assert_eq!(session.user_id, 3);
    assert_eq!(session.expires, 1_700_604_800);
    assert_eq!(session.data, "\"{}\"");
}

#[test]
fn session_response_shows_id_and_expiry() {
    let session = Session { id: 5, data: "{}".to_string(), expires: 77, user_id: 3 };
    let SessionResponse { id, expires } = session.response();
    assert_eq!(id, 5);
    assert_eq!(expires, 77);
}

#[test]
fn requests_hold_what_clients_send() {
    let user = CreateUserRequest {
        email: "a@example.com".to_string(),
        username: "ann".to_string(),
        password: "secret".to_string(),
    };
    let login = CreateSessionRequest { username: user.username.clone(), password: user.password.clone() };
    assert_eq!(login.username, "ann");
    assert_eq!(login.password, "secret");
    let add = AddFeedRequest { url: Link::parse("https://example.com/feed.xml").unwrap() };
    assert_eq!(add.url.text, "https://example.com/feed.xml");
}

#[test]
fn authenticate_accepts_the_right_password() {
    let record = stored("secret", "NaCl1234");
    assert_eq!(authenticate(Some(42), Some(&record), "secret").unwrap(), 42);
}

#[test]
fn authenticate_names_what_is_amiss() {
    let record = stored("secret", "NaCl1234");
    assert!(matches!(authenticate(None, Some(&record), "secret"), Err(AppError::UserNotFound)));
    assert!(matches!(authenticate(None, None, "secret"), Err(AppError::UserNotFound)));
    assert!(matches!(authenticate(Some(42), None, "secret"), Err(AppError::NoPassword)));
    assert!(matches!(authenticate(Some(42), Some(&record), "Secret"), Err(AppError::Unauthorized)));
    assert!(matches!(authenticate(Some(42), Some(&record), ""), Err(AppError::Unauthorized)));
}

#[test]
fn error_messages() {
    assert_eq!(AppError::FetchFailure("a".to_string()).message(), "a");
    assert_eq!(AppError::ParseFailure("b".to_string()).message(), "b");
    assert_eq!(AppError::PersistenceFailure("c".to_string()).message(), "c");
    assert_eq!(AppError::IconResolutionFailure("d".to_string()).message(), "d");
    assert_eq!(AppError::Unauthorized.message(), "unauthorized");
    assert_eq!(AppError::UserNotFound.message(), "user not found");
    assert_eq!(AppError::NoPassword.message(), "no password");
    let copy = AppError::ParseFailure("b".to_string()).duplicate();
    assert!(matches!(copy, AppError::ParseFailure(ref m) if m == "b"));
}

#[test]
fn extend_appends_copies() {
    let mut list = vec!["a".to_string()];
    extend(&mut list, &vec!["b".to_string(), "c".to_string()]);
    assert_eq!(list, vec!["a".to_string(), "b".to_string(), "c".to_string()]);
    extend(&mut list, &vec![]);
    assert_eq!(list.len(), 3);
}
