//! How an embedded key-value database lays out the state of the store.
//!
//! Each crate's entry is kept under the crate's normalized name. The users,
//! the password hashes, the tokens, the nonces and the version of the
//! layout are kept under reserved keys, which no crate's name normalizes
//! to. An earlier layout kept the tokens under `tokens`, which a crate
//! could be named; a database in that layout is migrated when it is opened.

use crate::error::Error;
use crate::names::{normal_name, valid_name};
use crate::text::{same_text, utf8_text};
use vstd::prelude::*;
use vstd::utf8::{decode_utf8, valid_utf8};

verus! {

/// The key of the version of the layout.
pub const SCHEMA_VERSION_KEY: &'static str = "__SCHEMA_VERSION__";

/// The key of the users.
pub const USERS_KEY: &'static str = "__USERS__";

/// The key of the password hashes.
pub const PASSWORDS_KEY: &'static str = "__PASSWORDS__";

/// The key of the tokens.
pub const TOKENS_KEY: &'static str = "__TOKENS__";

/// The key of the nonces of the federated logins under way.
pub const OAUTH_NONCES_KEY: &'static str = "__OAUTH_NONCES__";

/// The key under which the first layout kept the tokens.
pub const OLD_TOKENS_KEY: &'static str = "tokens";

/// The version of the layout.
pub const SCHEMA_VERSION: u64 = 3;

/// `key` is one of the reserved keys.
pub open spec fn reserved_key(key: Seq<char>) -> bool {
    ||| key == SCHEMA_VERSION_KEY@
    ||| key == USERS_KEY@
    ||| key == PASSWORDS_KEY@
    ||| key == TOKENS_KEY@
    ||| key == OAUTH_NONCES_KEY@
}

/// Whether `key` is one of the reserved keys, under which no entry is kept.
pub fn is_reserved_key(key: &str) -> (r: bool)
    ensures
        r == reserved_key(key@),
{
    same_text(key, SCHEMA_VERSION_KEY) || same_text(key, USERS_KEY) || same_text(key, PASSWORDS_KEY)
        || same_text(key, TOKENS_KEY) || same_text(key, OAUTH_NONCES_KEY)
}

/// No crate is kept under a reserved key: an allowed name begins with a
/// letter, and so does what it normalizes to, while every reserved key
/// begins with `_`.
pub proof fn lemma_names_are_not_reserved(name: Seq<char>)
    requires
        valid_name(name),
    ensures
        !reserved_key(normal_name(name)),
{
    reveal_strlit("__SCHEMA_VERSION__");
    reveal_strlit("__USERS__");
    reveal_strlit("__PASSWORDS__");
    reveal_strlit("__TOKENS__");
    reveal_strlit("__OAUTH_NONCES__");
    let key = normal_name(name);
    assert(key[0] != '_');
    assert(SCHEMA_VERSION_KEY@[0] == '_');
    assert(USERS_KEY@[0] == '_');
    assert(PASSWORDS_KEY@[0] == '_');
    assert(TOKENS_KEY@[0] == '_');
    assert(OAUTH_NONCES_KEY@[0] == '_');
}

/// The version of the layout as the database keeps it: eight bytes, most
/// significant first.
pub fn schema_version_bytes() -> (bytes: [u8; 8])
    ensures
        bytes@ == seq![0u8, 0u8, 0u8, 0u8, 0u8, 0u8, 0u8, 3u8],
{
    let bytes: [u8; 8] = [0, 0, 0, 0, 0, 0, 0, 3];
    assert(bytes@ =~= seq![0u8, 0u8, 0u8, 0u8, 0u8, 0u8, 0u8, 3u8]);
    bytes
}

/// What to do to a database when it is opened: where it states no version
/// of its layout and keeps tokens under the old key, the tokens are to be
/// moved to the new key, and they are handed back as text; otherwise
/// nothing is to be done. Tokens that are no text cannot be moved.
pub fn migrate_tokens(
    has_schema_version: bool,
    old_tokens: Option<&[u8]>,
) -> (r: Result<Option<String>, Error>)
    ensures
        match old_tokens {
            Some(bytes) if !has_schema_version => if valid_utf8(bytes@) {
                r matches Ok(Some(tokens)) && tokens@ == decode_utf8(bytes@)
            } else {
                r matches Err(Error::InvalidUtf8Bytes(_))
            },
            _ => r matches Ok(None),
        },
{
    match old_tokens {
        Some(bytes) if !has_schema_version => match utf8_text(bytes) {
            Ok(tokens) => Ok(Some(tokens)),
            Err(message) => Err(Error::InvalidUtf8Bytes(message)),
        },
        _ => Ok(None),
    }
}

} // verus!
