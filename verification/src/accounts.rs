//! Users, their passwords and their sessions, as records, and the decision
//! on a login.

use crate::address::Link;
use crate::clock::Timestamp;
use crate::credentials::{check_password, hash_password, is_drawn_salt, salted_hash};
use crate::error::AppError;
use crate::hashing::is_hex_of_length;
use vstd::prelude::*;
use vstd::string::*;

verus! {

/// For how many seconds a session is good.
pub const SESSION_LIFETIME: i64 = 604800;

/// A user of the service. `config` holds a JSON document as text.
#[derive(Debug, Clone)]
pub struct User {
    pub id: u128,
    pub email: String,
    pub username: String,
    pub config: Option<String>,
}

/// The stored password of a user.
#[derive(Clone)]
pub struct Password {
    pub id: u128,
    pub hash: String,
    pub salt: String,
    pub user_id: u128,
}

/// A session of a user. `data` holds a JSON document as text, `expires` the
/// second, since the Unix epoch, after which the session is good no more.
#[derive(Clone)]
pub struct Session {
    pub id: u128,
    pub data: String,
    pub expires: i64,
    pub user_id: u128,
}

/// What a client sends to have a user made.
pub struct CreateUserRequest {
    pub email: String,
    pub username: String,
    pub password: String,
}

/// What a client sends to log in.
pub struct CreateSessionRequest {
    pub username: String,
    pub password: String,
}

/// What a client sends to have a feed added.
pub struct AddFeedRequest {
    pub url: Link,
}

/// What a client learns of its session.
#[derive(Clone)]
pub struct SessionResponse {
    pub id: u128,
    pub expires: i64,
}

impl User {
    /// A user without configuration.
    pub fn new(id: u128, email: String, username: String) -> (r: User)
        ensures
            r.id == id,
            r.email@ == email@,
            r.username@ == username@,
            r.config is None,
    {
        User { id, email, username, config: None }
    }
}

impl Password {
    /// The record of a user's password, hashed under a fresh salt.
    pub fn new(id: u128, password: String, user_id: u128) -> (r: Password)
        ensures
            r.id == id,
            r.user_id == user_id,
            is_drawn_salt(r.salt@),
            r.hash@ == salted_hash(password@, r.salt@),
            is_hex_of_length(r.hash@, 128),
    {
        let hashed = hash_password(password, None);
        Password { id, hash: hashed.hash, salt: hashed.salt, user_id }
    }
}

impl Session {
    /// A session that begins at `now` and is good for `SESSION_LIFETIME`
    /// seconds. Its data is the JSON string `"{}"`.
    pub fn new(id: u128, user_id: u128, now: Timestamp) -> (r: Session)
        requires
            now.unix_seconds + SESSION_LIFETIME <= i64::MAX,
        ensures
            r.id == id,
            r.user_id == user_id,
            r.expires == now.unix_seconds + SESSION_LIFETIME,
            r.data@ == "\"{}\""@,
    {
        Session {
            id,
            data: String::from_str("\"{}\""),
            expires: now.unix_seconds + SESSION_LIFETIME,
            user_id,
        }
    }

    /// What the client learns of the session.
    pub fn response(&self) -> (r: SessionResponse)
        ensures
            r.id == self.id,
            r.expires == self.expires,
    {
        SessionResponse { id: self.id, expires: self.expires }
    }
}

/// Whether a login is good: the user is known, a password is stored for the
/// user, and the given password hashes to it under the stored salt.
pub open spec fn login_is_good(user: Option<u128>, stored: Option<&Password>, password: Seq<char>) -> bool {
    &&& user is Some
    &&& stored matches Some(record)
    &&& salted_hash(password, record.salt@) == record.hash@
}

/// Decides a login. `user` is the identity found under the user name,
/// `stored` the password found for that user. The first thing that is amiss
/// decides the error: the user unknown, no password stored, the password
/// wrong. A good login gives the identity of the user.
pub fn authenticate(user: Option<u128>, stored: Option<&Password>, password: &str) -> (r: Result<
    u128,
    AppError,
>)
    ensures
        r is Ok <==> login_is_good(user, stored, password@),
        r matches Ok(id) ==> user == Some(id),
        r matches Err(e) ==> if user is None {
            e is UserNotFound
        } else if stored is None {
            e is NoPassword
        } else {
            e is Unauthorized
        },
{
    let id = match user {
        Some(id) => id,
        None => {
            return Err(AppError::UserNotFound);
        },
    };
    let record = match stored {
        Some(record) => record,
        None => {
            return Err(AppError::NoPassword);
        },
    };
    match check_password(password.to_owned(), record.hash.clone(), record.salt.clone()) {
        Ok(_) => Ok(id),
        Err(e) => Err(e),
    }
}

} // verus!
