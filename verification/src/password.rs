//! Password hashes and random secrets.
//!
//! Passwords are kept as Argon2id hashes in the encoded form of the
//! `argon2` crate; salts and tokens are random alphanumeric strings drawn
//! with `rand`.

use rand::distributions::DistString;
use vstd::prelude::*;
use vstd::string::StringSliceAdditionalSpecFns;
use vstd::utf8::encode_utf8;

verus! {

/// What `argon2::hash_encoded` returns for a password and a salt where it is
/// configured for Argon2id with `lanes` lanes, one thread each, and the
/// crate's defaults otherwise: the encoded hash, or `None` where it fails.
pub uninterp spec fn argon2id_encoded(password: Seq<u8>, salt: Seq<u8>, lanes: u32) -> Option<Seq<char>>;

/// What `argon2::verify_encoded` returns for an encoded hash and a password:
/// whether the password matches, or `None` where the hash cannot be read.
pub uninterp spec fn argon2_verifies(encoded: Seq<char>, password: Seq<u8>) -> Option<bool>;

/// `c` is an ASCII letter or digit.
pub open spec fn is_alphanumeric(c: char) -> bool {
    'a' <= c <= 'z' || 'A' <= c <= 'Z' || '0' <= c <= '9'
}

/// `s` is made of `length` ASCII letters and digits.
pub open spec fn is_secret(s: Seq<char>, length: nat) -> bool {
    s.len() == length && forall|i: int| 0 <= i < s.len() ==> is_alphanumeric(#[trigger] s[i])
}

/// The length of a salt and of a token, in characters.
pub const SECRET_LEN: usize = 32;

/// The number of lanes in which a password is hashed.
pub const LANES: u32 = 4;

/// The hash that the registry keeps for `password` where it hashes it under
/// `salt`; `None` where the hasher refuses the two.
pub open spec fn password_hash(password: Seq<char>, salt: Seq<char>) -> Option<Seq<char>> {
    argon2id_encoded(encode_utf8(password), encode_utf8(salt), LANES)
}

/// Whether `password` verifies against the hash `encoded`; `None` where the
/// hash cannot be read.
pub open spec fn password_matches(encoded: Seq<char>, password: Seq<char>) -> Option<bool> {
    argon2_verifies(encoded, encode_utf8(password))
}

/// Calls `argon2::hash_encoded`, configured for Argon2id with `lanes` lanes
/// and as many threads; where it fails, the error is handed back as its
/// message.
///
/// The contract names the result and records the crate's promise that a
/// hash verifies against the password it was made from.
#[verifier::external_body]
fn argon2_hash(password: &[u8], salt: &[u8], lanes: u32) -> (r: Result<String, String>)
    ensures
        r matches Ok(encoded) ==> argon2id_encoded(password@, salt@, lanes) == Some(encoded@)
            && argon2_verifies(encoded@, password@) == Some(true),
        r is Err ==> argon2id_encoded(password@, salt@, lanes) is None,
{
    let config = argon2::Config {
        variant: argon2::Variant::Argon2id,
        lanes,
        thread_mode: argon2::ThreadMode::Parallel,
        ..Default::default()
    };
    argon2::hash_encoded(password, salt, &config).map_err(|e| e.to_string())
}

/// Calls `argon2::verify_encoded`; where it fails, the error is handed back
/// as its message.
#[verifier::external_body]
fn argon2_verify(encoded: &str, password: &[u8]) -> (r: Result<bool, String>)
    ensures
        r matches Ok(matches) ==> argon2_verifies(encoded@, password@) == Some(matches),
        r is Err ==> argon2_verifies(encoded@, password@) is None,
{
    argon2::verify_encoded(encoded, password).map_err(|e| e.to_string())
}

/// Draws `length` characters with `rand`'s `Alphanumeric` from the thread's
/// generator. Whatever is drawn, it is that many ASCII letters and digits.
#[verifier::external_body]
pub fn random_alphanumeric_string(length: usize) -> (s: String)
    ensures
        is_secret(s@, length as nat),
{
    rand::distributions::Alphanumeric.sample_string(&mut rand::thread_rng(), length)
}

/// The Argon2id hash of `password` under `salt`, in encoded form, or the
/// hasher's message where it refuses the two.
pub fn encode_password(password: &str, salt: &str) -> (r: Result<String, String>)
    ensures
        match password_hash(password@, salt@) {
            Some(encoded) => r matches Ok(e) && e@ == encoded && password_matches(
                encoded,
                password@,
            ) == Some(true),
            None => r is Err,
        },
{
    argon2_hash(password.as_bytes(), salt.as_bytes(), LANES)
}

/// Whether `password` matches the encoded hash, or the hasher's message
/// where the hash cannot be read.
pub fn matches_password(encoded: &str, password: &str) -> (r: Result<bool, String>)
    ensures
        match password_matches(encoded@, password@) {
            Some(matches) => r == Ok::<bool, String>(matches),
            None => r is Err,
        },
{
    argon2_verify(encoded, password.as_bytes())
}

} // verus!
