//! What each request to the registry does to the store, and what it answers.
//!
//! A request that also touches the index or the file system is decided here
//! in steps, and the host performs what lies between them: it decodes the
//! metadata, commits to the index and writes the crate file.

use crate::db_manager::DbManager;
use crate::db_manager::model::{
    db_wf, failed_with, login_of_name, may_add_metadata, may_edit_owners, may_edit_package,
    missing_logins, next_user_id, owners_merged, password_accepted, password_changed,
    password_checked, token_holder, user_added, user_of_login, with_owners_removed, with_token,
    DbView,
};
use crate::error::{Error, ErrorView};
use crate::frame::{bytes_taken, length_read, read_length, read_tarball, take_bytes, tarball_of};
use crate::models::{
    index_line, ChangePassword, Credential, Metadata, Owners, Package, User, UserView,
};
use crate::password::{is_secret, random_alphanumeric_string, SECRET_LEN};
use crate::text::{debug_form, debug_list, utf8_text};
use crate::version::Version;
use sha2::Digest;
use vstd::prelude::*;
use vstd::string::StringExecFns;
use vstd::utf8::{decode_utf8, valid_utf8};

verus! {

/// The SHA-256 digest of `data`, written as 64 lower-case hexadecimal
/// digits: what `sha2::Sha256` computes and `{:x}` writes.
pub uninterp spec fn sha256_hex(data: Seq<u8>) -> Seq<char>;

/// Feeds `data` to a `sha2::Sha256` and writes the digest in lower-case
/// hexadecimal.
#[verifier::external_body]
fn checksum(data: &[u8]) -> (hex: String)
    ensures
        hex@ == sha256_hex(data@),
{
    let mut hasher = sha2::Sha256::default();
    hasher.update(data);
    format!("{:x}", hasher.finalize())
}

/// The first part of a publish request, read: who sends it, the metadata
/// as text, and what follows the metadata in the frame.
#[derive(Debug)]
pub struct PublishHead<'a> {
    pub user_id: u32,
    pub metadata: String,
    pub rest: &'a [u8],
}

/// Reads the first part of a publish request: resolves the token, then
/// takes the metadata from the frame and reads it as UTF-8.
pub fn read_publish_head<'a>(
    db: &DbManager,
    token: &str,
    body: &'a [u8],
) -> (r: Result<PublishHead<'a>, Error>)
    ensures
        match token_holder(db@.tokens, token@) {
            None => failed_with(r, ErrorView::InvalidToken(token@)),
            Some(user_id) => match length_read(body@) {
                Err(n) => failed_with(r, ErrorView::InvalidBodyLength(n)),
                Ok((metadata_len, behind)) => match bytes_taken(behind, metadata_len) {
                    Err(n) => failed_with(r, ErrorView::InvalidBodyLength(n)),
                    Ok((metadata, rest)) => if valid_utf8(metadata) {
                        &&& r matches Ok(head)
                        &&& head.user_id == user_id
                        &&& head.metadata@ == decode_utf8(metadata)
                        &&& head.rest@ == rest
                    } else {
                        r matches Err(Error::InvalidUtf8Bytes(_))
                    },
                },
            },
        },
{
    let user_id = match db.user_id_for_token(token) {
        Ok(id) => id,
        Err(e) => {
            return Err(e);
        },
    };
    let (metadata_len, behind) = match read_length(body) {
        Ok(read) => read,
        Err(e) => {
            return Err(e);
        },
    };
    let (metadata, rest) = match take_bytes(behind, metadata_len) {
        Ok(taken) => taken,
        Err(e) => {
            return Err(e);
        },
    };
    match utf8_text(metadata) {
        Ok(text) => Ok(PublishHead { user_id, metadata: text, rest }),
        Err(message) => Err(Error::InvalidUtf8Bytes(message)),
    }
}

/// What is left to do for a publish request that may go ahead: the line to
/// add to the index, and the crate file to keep.
#[derive(Debug)]
pub struct Publication<'a> {
    pub package: Package,
    pub tarball: &'a [u8],
}

/// Decides whether the user `user_id` may publish `metadata`, and if so,
/// takes the crate file from `rest` and works out the index line. A name
/// that is another spelling of the crate's name is reported as overlapping.
pub fn plan_publish<'a>(
    db: &DbManager,
    user_id: u32,
    metadata: &Metadata,
    rest: &'a [u8],
) -> (r: Result<Publication<'a>, Error>)
    requires
        db_wf(db@),
    ensures
        match may_add_metadata(db@, user_id, metadata@.name, metadata@.vers) {
            Err(e) => failed_with(r, e),
            Ok(false) => failed_with(r, ErrorView::OverlappedCrateName(metadata@.name)),
            Ok(true) => match tarball_of(rest@) {
                Err(n) => failed_with(r, ErrorView::InvalidBodyLength(n)),
                Ok(tarball) => {
                    &&& r matches Ok(publication)
                    &&& publication.tarball@ == tarball
                    &&& publication.package@ == index_line(metadata@, sha256_hex(tarball))
                },
            },
        },
{
    match db.can_add_metadata(user_id, metadata.name.as_str(), &metadata.vers) {
        Err(e) => {
            return Err(e);
        },
        Ok(false) => {
            return Err(Error::OverlappedCrateName(metadata.name.clone()));
        },
        Ok(true) => {},
    }
    let tarball = match read_tarball(rest) {
        Ok(tarball) => tarball,
        Err(e) => {
            return Err(e);
        },
    };
    let package = metadata.to_package(checksum(tarball));
    Ok(Publication { package, tarball })
}

/// Where the crate file of the version `version` of the crate `name` lies,
/// relative to the directory of the crate files.
pub open spec fn download_path_of(name: Seq<char>, version: Seq<char>) -> Seq<char> {
    name + "/"@ + version + "/download"@
}

/// Where the crate file of `version` of the crate `name` lies, relative to
/// the directory of the crate files: `<name>/<version>/download`.
pub fn download_path(name: &str, version: &Version) -> (path: String)
    ensures
        path@ == download_path_of(name@, version@),
{
    let mut path = name.to_owned();
    path.append("/");
    path.append(version.as_str());
    path.append("/download");
    path
}

/// Decides whether the holder of `token` may yank or unyank `version` of
/// the crate `crate_name`, and says who that is. A name that is another
/// spelling of the crate's name is reported as overlapping.
pub fn authorize_edit(
    db: &DbManager,
    token: &str,
    crate_name: &str,
    version: &Version,
) -> (r: Result<u32, Error>)
    requires
        db_wf(db@),
    ensures
        match token_holder(db@.tokens, token@) {
            None => failed_with(r, ErrorView::InvalidToken(token@)),
            Some(user_id) => match may_edit_package(db@, user_id, crate_name@, version@) {
                Err(e) => failed_with(r, e),
                Ok(false) => failed_with(r, ErrorView::OverlappedCrateName(crate_name@)),
                Ok(true) => r == Ok::<u32, Error>(user_id),
            },
        },
{
    let user_id = match db.user_id_for_token(token) {
        Ok(id) => id,
        Err(e) => {
            return Err(e);
        },
    };
    match db.can_edit_package(user_id, crate_name, version) {
        Err(e) => Err(e),
        Ok(false) => Err(Error::OverlappedCrateName(crate_name.to_owned())),
        Ok(true) => Ok(user_id),
    }
}

/// What the registry answers after it added `logins` to the owners of the
/// crate `name`.
pub open spec fn owners_added_message(logins: Seq<Seq<char>>, name: Seq<char>) -> Seq<char> {
    if logins.len() == 1 {
        "user "@ + logins[0] + " has been added to the owners list of crate "@ + name
    } else {
        "users "@ + debug_form(logins) + " have been added to the owners list of crate "@ + name
    }
}

/// The error with which a request to change the owners of the crate `name`
/// is refused before anything is changed, if it is: the request names no
/// login, the token is nobody's, the holder of the token may not change the
/// owners, or one of the logins is nobody's.
pub open spec fn owners_change_refused(
    db: DbView,
    token: Seq<char>,
    name: Seq<char>,
    logins: Seq<Seq<char>>,
) -> Option<ErrorView> {
    if logins.len() == 0 {
        Some(ErrorView::LoginsNotDefined)
    } else {
        match token_holder(db.tokens, token) {
            None => Some(ErrorView::InvalidToken(token)),
            Some(user_id) => match may_edit_owners(db, user_id, name) {
                Err(e) => Some(e),
                Ok(_) => if missing_logins(db.users, logins).len() > 0 {
                    Some(ErrorView::InvalidLoginNames(missing_logins(db.users, logins)))
                } else {
                    None
                },
            },
        }
    }
}

/// Handles a request of the holder of `token` to add the users named in
/// `owners` to the owners of the crate `name`, and words the answer.
pub fn handle_add_owners(
    db: &mut DbManager,
    token: &str,
    name: &str,
    owners: &Owners,
) -> (r: Result<String, Error>)
    requires
        db_wf(old(db)@),
    ensures
        db_wf(final(db)@),
        match owners_change_refused(old(db)@, token@, name@, owners.logins.deep_view()) {
            Some(e) => failed_with(r, e) && final(db)@ == old(db)@,
            None => {
                &&& r matches Ok(message)
                &&& message@ == owners_added_message(owners.logins.deep_view(), name@)
                &&& owners_merged(old(db)@, final(db)@, name@, owners.logins.deep_view())
            },
        },
{
    if owners.logins.len() == 0 {
        return Err(Error::LoginsNotDefined);
    }
    let user_id = match db.user_id_for_token(token) {
        Ok(id) => id,
        Err(e) => {
            return Err(e);
        },
    };
    match db.can_edit_owners(user_id, name) {
        Ok(_) => {},
        Err(e) => {
            return Err(e);
        },
    }
    match db.add_owners(name, &owners.logins) {
        Ok(()) => {},
        Err(e) => {
            return Err(e);
        },
    }
    let mut message;
    if owners.logins.len() == 1 {
        message = "user ".to_owned();
        message.append(owners.logins[0].as_str());
        message.append(" has been added to the owners list of crate ");
    } else {
        message = "users ".to_owned();
        message.append(debug_list(&owners.logins).as_str());
        message.append(" have been added to the owners list of crate ");
    }
    message.append(name);
    Ok(message)
}

/// Handles a request of the holder of `token` to take the users named in
/// `owners` from the owners of the crate `name`. The answer is an empty
/// message, which Cargo expects to be there.
pub fn handle_remove_owners(
    db: &mut DbManager,
    token: &str,
    name: &str,
    owners: &Owners,
) -> (r: Result<String, Error>)
    requires
        db_wf(old(db)@),
    ensures
        db_wf(final(db)@),
        match owners_change_refused(old(db)@, token@, name@, owners.logins.deep_view()) {
            Some(e) => failed_with(r, e) && final(db)@ == old(db)@,
            None => {
                &&& r matches Ok(message)
                &&& message@.len() == 0
                &&& final(db)@ == with_owners_removed(old(db)@, name@, owners.logins.deep_view())
            },
        },
{
    if owners.logins.len() == 0 {
        return Err(Error::LoginsNotDefined);
    }
    let user_id = match db.user_id_for_token(token) {
        Ok(id) => id,
        Err(e) => {
            return Err(e);
        },
    };
    match db.can_edit_owners(user_id, name) {
        Ok(_) => {},
        Err(e) => {
            return Err(e);
        },
    }
    match db.remove_owners(name, &owners.logins) {
        Ok(()) => Ok(String::new()),
        Err(e) => Err(e),
    }
}

/// The user that a registration under `name` creates.
pub open spec fn new_user_of(db: DbView, name: Seq<char>) -> UserView {
    UserView { id: next_user_id(db), login: login_of_name(db, name), name: Some(name) }
}

/// What a registration under `name` with `password` does, where the
/// password is hashed under `salt` and `token` is the new user's token:
/// the user is added and given the token, and the token is the answer;
/// where the user cannot be added, nothing changes.
pub open spec fn registered(
    before: DbView,
    after: DbView,
    r: Result<String, Error>,
    name: Seq<char>,
    password: Seq<char>,
    salt: Seq<char>,
    token: Seq<char>,
) -> bool {
    let user = new_user_of(before, name);
    exists|added: DbView, step: Result<(), Error>| #[trigger]
        user_added(before, added, step, user, password, salt) && match step {
            Ok(_) => after == with_token(added, user.id, token) && match r {
                Ok(answer) => answer@ == token,
                Err(_) => false,
            },
            Err(e) => after == before && failed_with(r, e@),
        }
}

/// Registers a user under `name`, hashing the password under `salt` and
/// giving the user the token `token`.
pub fn handle_new_user_with(
    db: &mut DbManager,
    name: &str,
    password: &str,
    salt: &str,
    token: &str,
) -> (r: Result<String, Error>)
    requires
        db_wf(old(db)@),
    ensures
        db_wf(final(db)@),
        registered(old(db)@, final(db)@, r, name@, password@, salt@, token@),
{
    let ghost before = db@;
    let user_id = match db.last_user_id() {
        Some(id) => if id == u32::MAX {
            0
        } else {
            id + 1
        },
        None => 0,
    };
    let user = User::new(user_id, db.login_for(name), Some(name.to_owned()));
    let ghost view = user@;
    assert(view == new_user_of(before, name@));
    let step = db.add_new_user_with_salt(user, password, salt);
    let ghost added = db@;
    let ghost taken = step;
    match step {
        Err(e) => Err(e),
        Ok(()) => {
            db.set_token(user_id, token);
            let answer = token.to_owned();
            assert(user_added(before, added, taken, view, password@, salt@));
            Ok(answer)
        },
    }
}

/// Registers a user under `name` with the password of `credential`, hashed
/// under a fresh random salt, and answers with the user's fresh random
/// token.
pub fn handle_new_user(
    db: &mut DbManager,
    name: &str,
    credential: &Credential,
) -> (r: Result<String, Error>)
    requires
        db_wf(old(db)@),
    ensures
        db_wf(final(db)@),
        exists|salt: Seq<char>, token: Seq<char>|
            is_secret(salt, SECRET_LEN as nat) && is_secret(token, SECRET_LEN as nat) && #[trigger] registered(
                old(db)@,
                final(db)@,
                r,
                name@,
                credential.password@,
                salt,
                token,
            ),
{
    let salt = random_alphanumeric_string(SECRET_LEN);
    let token = random_alphanumeric_string(SECRET_LEN);
    handle_new_user_with(db, name, credential.password.as_str(), salt.as_str(), token.as_str())
}

/// What a login under `name` with `password` does, where `token` is the
/// token to give: where the password is the user's, the user gets the
/// token and the token is the answer; otherwise nothing changes.
pub open spec fn logged_in(
    before: DbView,
    after: DbView,
    r: Result<String, Error>,
    name: Seq<char>,
    password: Seq<char>,
    token: Seq<char>,
) -> bool {
    match user_of_login(before.users, login_of_name(before, name)) {
        None => after == before && failed_with(r, ErrorView::InvalidUsername(name)),
        Some(user) => exists|step: Result<bool, Error>| #[trigger]
            password_checked(before, user.id, password, step) && match step {
                Ok(true) => after == with_token(before, user.id, token) && match r {
                    Ok(answer) => answer@ == token,
                    Err(_) => false,
                },
                Ok(false) => after == before && failed_with(r, ErrorView::InvalidPassword),
                Err(e) => after == before && failed_with(r, e@),
            },
    }
}

/// Logs the user registered under `name` in with `password`, giving the
/// user the token `token`.
pub fn handle_login_with(
    db: &mut DbManager,
    name: &str,
    password: &str,
    token: &str,
) -> (r: Result<String, Error>)
    requires
        db_wf(old(db)@),
    ensures
        db_wf(final(db)@),
        logged_in(old(db)@, final(db)@, r, name@, password@, token@),
        r is Ok ==> password_accepted(
            old(db)@,
            user_of_login(old(db)@.users, login_of_name(old(db)@, name@))->0.id,
            password@,
        ),
{
    let ghost before = db@;
    let user = match db.user_by_username(name) {
        Ok(user) => user,
        Err(e) => {
            return Err(e);
        },
    };
    let step = db.verify_password(user.id, password);
    let ghost taken = step;
    assert(password_checked(before, user.id, password@, taken));
    match step {
        Err(e) => Err(e),
        Ok(false) => Err(Error::InvalidPassword),
        Ok(true) => {
            db.set_token(user.id, token);
            Ok(token.to_owned())
        },
    }
}

/// Logs the user registered under `name` in with the password of
/// `credential`, and answers with the user's fresh random token.
pub fn handle_login(
    db: &mut DbManager,
    name: &str,
    credential: &Credential,
) -> (r: Result<String, Error>)
    requires
        db_wf(old(db)@),
    ensures
        db_wf(final(db)@),
        exists|token: Seq<char>|
            is_secret(token, SECRET_LEN as nat) && #[trigger] logged_in(
                old(db)@,
                final(db)@,
                r,
                name@,
                credential.password@,
                token,
            ),
{
    let token = random_alphanumeric_string(SECRET_LEN);
    handle_login_with(db, name, credential.password.as_str(), token.as_str())
}

/// What a request to change the password of the user registered under
/// `name` does, where the new password is hashed under `salt` and `token`
/// is the token to give: where the password is changed, the user gets the
/// token and the token is the answer; otherwise nothing changes.
pub open spec fn password_replaced(
    before: DbView,
    after: DbView,
    r: Result<String, Error>,
    name: Seq<char>,
    old_password: Seq<char>,
    new_password: Seq<char>,
    salt: Seq<char>,
    token: Seq<char>,
) -> bool {
    match user_of_login(before.users, login_of_name(before, name)) {
        None => after == before && failed_with(r, ErrorView::InvalidUsername(name)),
        Some(user) => exists|changed: DbView, step: Result<(), Error>| #[trigger]
            password_changed(before, changed, step, user.id, old_password, new_password, salt)
                && match step {
                Ok(_) => after == with_token(changed, user.id, token) && match r {
                    Ok(answer) => answer@ == token,
                    Err(_) => false,
                },
                Err(e) => after == before && failed_with(r, e@),
            },
    }
}

/// Changes the password of the user registered under `name`, hashing the
/// new one under `salt` and giving the user the token `token`.
pub fn handle_change_password_with(
    db: &mut DbManager,
    name: &str,
    old_password: &str,
    new_password: &str,
    salt: &str,
    token: &str,
) -> (r: Result<String, Error>)
    requires
        db_wf(old(db)@),
    ensures
        db_wf(final(db)@),
        password_replaced(
            old(db)@,
            final(db)@,
            r,
            name@,
            old_password@,
            new_password@,
            salt@,
            token@,
        ),
{
    let ghost before = db@;
    let user = match db.user_by_username(name) {
        Ok(user) => user,
        Err(e) => {
            return Err(e);
        },
    };
    let step = db.change_password_with_salt(user.id, old_password, new_password, salt);
    let ghost changed = db@;
    let ghost taken = step;
    assert(password_changed(
        before,
        changed,
        taken,
        user.id,
        old_password@,
        new_password@,
        salt@,
    ));
    match step {
        Err(e) => Err(e),
        Ok(()) => {
            db.set_token(user.id, token);
            Ok(token.to_owned())
        },
    }
}

/// Changes the password of the user registered under `name` as `passwords`
/// asks, hashing the new one under a fresh random salt, and answers with
/// the user's fresh random token.
pub fn handle_change_password(
    db: &mut DbManager,
    name: &str,
    passwords: &ChangePassword,
) -> (r: Result<String, Error>)
    requires
        db_wf(old(db)@),
    ensures
        db_wf(final(db)@),
        exists|salt: Seq<char>, token: Seq<char>|
            is_secret(salt, SECRET_LEN as nat) && is_secret(token, SECRET_LEN as nat) && #[trigger] password_replaced(
                old(db)@,
                final(db)@,
                r,
                name@,
                passwords.old_password@,
                passwords.new_password@,
                salt,
                token,
            ),
{
    let salt = random_alphanumeric_string(SECRET_LEN);
    let token = random_alphanumeric_string(SECRET_LEN);
    handle_change_password_with(
        db,
        name,
        passwords.old_password.as_str(),
        passwords.new_password.as_str(),
        salt.as_str(),
        token.as_str(),
    )
}

} // verus!
