//! Logging in through an OpenID Connect issuer: who is let in, under which
//! login, and with which token.
//!
//! The host talks to the issuer; what it learns of the user (the groups
//! and the nickname) is judged here.

use crate::config::OpenIdConfig;
use crate::db_manager::DbManager;
use crate::db_manager::model::{
    db_wf, failed_with, next_user_id, secret_of, user_added, user_of_login, with_token, DbView,
};
use crate::error::Error;
use crate::models::{User, UserView};
use crate::password::{is_secret, random_alphanumeric_string, SECRET_LEN};
use crate::text::same_text;
use vstd::prelude::*;
use vstd::string::StringExecFns;

verus! {

/// `list` names nobody: it is not set, or it is empty.
pub open spec fn names_nobody(list: Option<Seq<Seq<char>>>) -> bool {
    match list {
        Some(names) => names.len() == 0,
        None => true,
    }
}

/// One of `own` is among `named`.
pub open spec fn shares_one(named: Seq<Seq<char>>, own: Seq<Seq<char>>) -> bool {
    exists|i: int| 0 <= i < own.len() && named.contains(#[trigger] own[i])
}

/// Whether a user with the given groups and nickname is let in. Everybody
/// is where neither groups nor users are named; otherwise a user is who
/// belongs to a named group or whose nickname is named. A user without a
/// nickname counts as one with the empty nickname.
pub open spec fn authorized(
    config: OpenIdConfig,
    groups: Option<Seq<Seq<char>>>,
    nickname: Option<Seq<char>>,
) -> bool {
    let in_group = match (config.gitlab_authorized_groups.deep_view(), groups) {
        (Some(named), Some(own)) => shares_one(named, own),
        _ => false,
    };
    let is_named = match config.gitlab_authorized_users.deep_view() {
        Some(named) => named.contains(
            match nickname {
                Some(n) => n,
                None => Seq::empty(),
            },
        ),
        None => false,
    };
    (names_nobody(config.gitlab_authorized_users.deep_view()) && names_nobody(
        config.gitlab_authorized_groups.deep_view(),
    )) || in_group || is_named
}

fn has_text(list: &Vec<String>, text: &str) -> (r: bool)
    ensures
        r == list.deep_view().contains(text@),
{
    let ghost view = list.deep_view();
    let mut i: usize = 0;
    while i < list.len()
        invariant
            i <= list.len(),
            view == list.deep_view(),
            forall|k: int| 0 <= k < i ==> view[k] != text@,
        decreases list.len() - i,
    {
        if same_text(list[i].as_str(), text) {
            assert(view[i as int] == text@);
            return true;
        }
        i += 1;
    }
    false
}

fn is_unset(list: &Option<Vec<String>>) -> (r: bool)
    ensures
        r == names_nobody(list.deep_view()),
{
    match list {
        Some(names) => names.len() == 0,
        None => true,
    }
}

fn shares_group(named: &Vec<String>, own: &Vec<String>) -> (r: bool)
    ensures
        r == shares_one(named.deep_view(), own.deep_view()),
{
    let ghost own_view = own.deep_view();
    let mut i: usize = 0;
    while i < own.len()
        invariant
            i <= own.len(),
            own_view == own.deep_view(),
            forall|k: int| 0 <= k < i ==> !named.deep_view().contains(#[trigger] own_view[k]),
        decreases own.len() - i,
    {
        if has_text(named, own[i].as_str()) {
            assert(named.deep_view().contains(own_view[i as int]));
            return true;
        }
        i += 1;
    }
    false
}

/// Decides whether a user with the given groups and nickname is let in.
pub fn check_user_authorization(
    config: &OpenIdConfig,
    groups: &Option<Vec<String>>,
    nickname: &Option<String>,
) -> (r: bool)
    ensures
        r == authorized(*config, groups.deep_view(), nickname.deep_view()),
{
    if is_unset(&config.gitlab_authorized_users) && is_unset(&config.gitlab_authorized_groups) {
        return true;
    }
    let in_group = match (&config.gitlab_authorized_groups, groups) {
        (Some(named), Some(own)) => shares_group(named, own),
        _ => false,
    };
    if in_group {
        return true;
    }
    proof {
        reveal_strlit("");
        assert(""@ =~= Seq::<char>::empty());
    }
    match &config.gitlab_authorized_users {
        Some(named) => match nickname {
            Some(n) => has_text(named, n.as_str()),
            None => has_text(named, ""),
        },
        None => false,
    }
}

/// The login of the user whom the issuer at `issuer_host` knows under
/// `nickname`.
pub open spec fn federated_login(issuer_host: Seq<char>, nickname: Seq<char>) -> Seq<char> {
    issuer_host + ":"@ + nickname
}

/// The password that stands for none: a user who logs in through an issuer
/// has no password of their own.
pub open spec fn no_passphrase() -> Seq<char> {
    "passphrases are unsupported with openid feature"@
}

/// The user who logs in through the issuer at `issuer_host` under
/// `nickname`, where the store must create one.
pub open spec fn federated_user(
    db: DbView,
    issuer_host: Seq<char>,
    nickname: Seq<char>,
) -> UserView {
    UserView {
        id: next_user_id(db),
        login: federated_login(issuer_host, nickname),
        name: Some(nickname),
    }
}

/// What finding or creating the user does: where the store knows the
/// login, that user is found and nothing changes; otherwise the user is
/// added, with the hash under `salt` of the password that stands for none.
pub open spec fn user_found_or_created(
    before: DbView,
    after: DbView,
    r: Result<User, Error>,
    issuer_host: Seq<char>,
    nickname: Seq<char>,
    salt: Seq<char>,
) -> bool {
    match user_of_login(before.users, federated_login(issuer_host, nickname)) {
        Some(user) => after == before && match r {
            Ok(found) => found@ == user,
            Err(_) => false,
        },
        None => exists|step: Result<(), Error>| #[trigger]
            user_added(
                before,
                after,
                step,
                federated_user(before, issuer_host, nickname),
                no_passphrase(),
                salt,
            ) && match step {
                Ok(_) => match r {
                    Ok(created) => created@ == federated_user(before, issuer_host, nickname),
                    Err(_) => false,
                },
                Err(e) => failed_with(r, e@),
            },
    }
}

/// Finds the user whom the issuer at `issuer_host` knows under `nickname`,
/// or creates one, hashing the password that stands for none under `salt`.
pub fn get_or_create_user_with(
    db: &mut DbManager,
    issuer_host: &str,
    nickname: &str,
    salt: &str,
) -> (r: Result<User, Error>)
    requires
        db_wf(old(db)@),
    ensures
        db_wf(final(db)@),
        user_found_or_created(old(db)@, final(db)@, r, issuer_host@, nickname@, salt@),
{
    let ghost before = db@;
    let mut login = issuer_host.to_owned();
    login.append(":");
    login.append(nickname);
    match db.user_by_login(login.as_str()) {
        Ok(user) => {
            return Ok(user);
        },
        Err(_) => {},
    }
    let user_id = match db.last_user_id() {
        Some(id) => if id == u32::MAX {
            0
        } else {
            id + 1
        },
        None => 0,
    };
    let user = User::new(user_id, login, Some(nickname.to_owned()));
    let created = user.clone();
    let step = db.add_new_user_with_salt(
        user,
        "passphrases are unsupported with openid feature",
        salt,
    );
    let ghost taken = step;
    assert(user_added(
        before,
        db@,
        taken,
        federated_user(before, issuer_host@, nickname@),
        no_passphrase(),
        salt@,
    ));
    match step {
        Ok(()) => Ok(created),
        Err(e) => Err(e),
    }
}

/// Finds the user whom the issuer at `issuer_host` knows under `nickname`,
/// or creates one.
pub fn get_or_create_user(
    db: &mut DbManager,
    issuer_host: &str,
    nickname: &str,
) -> (r: Result<User, Error>)
    requires
        db_wf(old(db)@),
    ensures
        db_wf(final(db)@),
        exists|salt: Seq<char>|
            is_secret(salt, SECRET_LEN as nat) && #[trigger] user_found_or_created(
                old(db)@,
                final(db)@,
                r,
                issuer_host@,
                nickname@,
                salt,
            ),
{
    let salt = random_alphanumeric_string(SECRET_LEN);
    get_or_create_user_with(db, issuer_host, nickname, salt.as_str())
}

/// What a user who logged in through an issuer is told, as plain values.
pub enum TokenReplyView {
    New { username: Seq<char>, new_token: Seq<char>, revoked_token: Option<Seq<char>> },
    Existing { username: Seq<char>, existing_token: Seq<char> },
}

/// What a user who logged in through an issuer is told: the token that was
/// just made for them, with the one it replaces if there was one; or the
/// token that they already have.
#[derive(Debug)]
pub enum TokenReply {
    New { username: String, new_token: String, revoked_token: Option<String> },
    Existing { username: String, existing_token: String },
}

impl View for TokenReply {
    type V = TokenReplyView;

    open spec fn view(&self) -> TokenReplyView {
        match self {
            TokenReply::New { username, new_token, revoked_token } => TokenReplyView::New {
                username: username@,
                new_token: new_token@,
                revoked_token: revoked_token.deep_view(),
            },
            TokenReply::Existing { username, existing_token } => TokenReplyView::Existing {
                username: username@,
                existing_token: existing_token@,
            },
        }
    }
}

/// What `user` is told, and the state of the store after: the user keeps
/// the token they have, unless they have none or the old one is to be
/// revoked; then `token` becomes their token.
pub open spec fn token_given(
    db: DbView,
    user: UserView,
    revoke_old_token: bool,
    token: Seq<char>,
) -> (TokenReplyView, DbView) {
    match secret_of(db.tokens, user.id) {
        Some(existing) if !revoke_old_token => (
            TokenReplyView::Existing { username: user.login, existing_token: existing },
            db,
        ),
        existing => (
            TokenReplyView::New { username: user.login, new_token: token, revoked_token: existing },
            with_token(db, user.id, token),
        ),
    }
}

/// Gives `user`, who is registered, the token to use: the one they have,
/// or `token` where they have none or `revoke_old_token` is set.
pub fn give_token(
    db: &mut DbManager,
    user: &User,
    revoke_old_token: bool,
    token: &str,
) -> (reply: TokenReply)
    requires
        db_wf(old(db)@),
        user_of_login(old(db)@.users, user@.login) == Some(user@),
    ensures
        db_wf(final(db)@),
        (reply@, final(db)@) == token_given(old(db)@, user@, revoke_old_token, token@),
{
    let existing = db.token_by_login(user.login.as_str());
    match existing {
        Some(existing_token) if !revoke_old_token => TokenReply::Existing {
            username: user.login.clone(),
            existing_token,
        },
        revoked_token => {
            db.set_token(user.id, token);
            TokenReply::New {
                username: user.login.clone(),
                new_token: token.to_owned(),
                revoked_token,
            }
        },
    }
}

} // verus!
