//! Hashing passwords under a salt, and checking them.

use crate::error::AppError;
use crate::hashing::{
    hex_encode, hex_lower, is_hex_of_length, lemma_hex_lower_shape, sha512_digest, sha512_of,
};
use crate::text::conjoin;
use rand::{distributions::Alphanumeric, Rng};
use vstd::prelude::*;
use vstd::utf8::encode_utf8;

verus! {

/// A password as it is stored: the hash of password and salt, and the salt.
pub struct HashedPassword {
    pub hash: String,
    pub salt: String,
}

/// How many characters a salt has that this library draws.
pub const SALT_LENGTH: usize = 8;

/// An ASCII letter or digit.
pub open spec fn is_alphanumeric(c: char) -> bool {
    ||| 48 <= c as u32 <= 57
    ||| 65 <= c as u32 <= 90
    ||| 97 <= c as u32 <= 122
}

/// A salt as this library draws it: eight ASCII letters and digits.
pub open spec fn is_drawn_salt(s: Seq<char>) -> bool {
    &&& s.len() == SALT_LENGTH
    &&& forall|i: int| 0 <= i < s.len() ==> is_alphanumeric(#[trigger] s[i])
}

/// The SHA-512 digest of a text's UTF-8 bytes, in lower-case hexadecimal.
pub open spec fn sha512_hex(text: Seq<char>) -> Seq<char> {
    hex_lower(sha512_digest(encode_utf8(text)))
}

/// The stored hash of a password under a salt: the salt follows the password.
pub open spec fn salted_hash(password: Seq<char>, salt: Seq<char>) -> Seq<char> {
    sha512_hex(password + salt)
}

/// `rand::Rng::sample` with `rand::distributions::Alphanumeric` on the thread's
/// generator: every outcome is an ASCII letter or digit.
#[verifier::external_body]
fn random_alphanumeric() -> (r: u8)
    ensures
        is_alphanumeric(r as char),
{
    rand::thread_rng().sample(Alphanumeric)
}

/// Draws a fresh salt.
fn draw_salt() -> (r: String)
    ensures
        is_drawn_salt(r@),
{
    let mut salt = String::new();
    let mut i: usize = 0;
    while i < SALT_LENGTH
        invariant
            i <= SALT_LENGTH,
            salt@.len() == i,
            forall|k: int| 0 <= k < salt@.len() ==> is_alphanumeric(#[trigger] salt@[k]),
        decreases SALT_LENGTH - i,
    {
        let c = random_alphanumeric();
        salt.push(c as char);
        i += 1;
    }
    salt
}

/// Return the SHA512 hash of a string: 128 lower-case hexadecimal digits.
pub fn sha512(text: String) -> (r: String)
    ensures
        r@ == sha512_hex(text@),
        is_hex_of_length(r@, 128),
{
    let digest = sha512_of(text.as_str().as_bytes());
    proof {
        lemma_hex_lower_shape(digest@);
    }
    hex_encode(digest.as_slice())
}

/// Hash a password under a given salt.
pub fn hash_with_salt(password: &str, salt: String) -> (r: HashedPassword)
    ensures
        r.salt@ == salt@,
        r.hash@ == salted_hash(password@, salt@),
        is_hex_of_length(r.hash@, 128),
{
    let hash = sha512(conjoin(password, salt.as_str()));
    HashedPassword { hash, salt }
}

/// Hash a password, returning the hash and salt values. Without a salt a
/// fresh one is drawn.
pub fn hash_password(password: String, salt: Option<String>) -> (r: HashedPassword)
    ensures
        r.hash@ == salted_hash(password@, r.salt@),
        is_hex_of_length(r.hash@, 128),
        match salt {
            Some(given) => r.salt@ == given@,
            None => is_drawn_salt(r.salt@),
        },
{
    let salt = match salt {
        Some(salt) => salt,
        None => draw_salt(),
    };
    hash_with_salt(password.as_str(), salt)
}

/// Accepts a password exactly when it hashes, under the stored salt, to the
/// stored hash.
pub fn check_password(password: String, hash: String, salt: String) -> (r: Result<(), AppError>)
    ensures
        r is Ok <==> salted_hash(password@, salt@) == hash@,
        r matches Err(e) ==> e is Unauthorized,
{
    let check = hash_password(password, Some(salt));
    if check.hash != hash {
        Err(AppError::Unauthorized)
    } else {
        Ok(())
    }
}

} // verus!
