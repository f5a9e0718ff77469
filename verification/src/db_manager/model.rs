//! The state of the store as plain values, and what each operation of the
//! store does to it.

use crate::error::{Error, ErrorView};
use crate::models::{
    ascending, counts, entry_is_empty, entry_wf, newest_position, search_row, version_position,
    EntryView, MetadataView, SearchedMetadataView, UserView,
};
use crate::names::{lower_name, normal_name, valid_name};
use crate::password::{password_hash, password_matches};
use crate::text::contains_text;
use vstd::prelude::*;

verus! {


/// A text kept for a user, as plain values.
pub struct SecretView {
    pub user_id: u32,
    pub text: Seq<char>,
}

/// A crate's entry under its normalized name, as plain values.
pub struct EntryRecordView {
    pub name: Seq<char>,
    pub entry: EntryView,
}

/// The nonce kept for a login that is under way, as plain values.
pub struct NonceView {
    pub state: Seq<char>,
    pub nonce: Seq<char>,
}

/// The state of the store, as plain values.
pub struct DbView {
    pub login_prefix: Seq<char>,
    pub users: Seq<UserView>,
    pub passwords: Seq<SecretView>,
    pub tokens: Seq<SecretView>,
    pub entries: Seq<EntryRecordView>,
    pub nonces: Seq<NonceView>,
}

/// No two of `users` have the same login.
pub open spec fn distinct_logins(users: Seq<UserView>) -> bool {
    forall|i: int, j: int|
        0 <= i < users.len() && 0 <= j < users.len() && i != j ==> (#[trigger] users[i]).login
            != (#[trigger] users[j]).login
}

/// `users` are in ascending order of their ids.
pub open spec fn ordered_by_id(users: Seq<UserView>) -> bool {
    forall|i: int, j: int| 0 <= i < j < users.len() ==> (#[trigger] users[i]).id <= (#[trigger] users[j]).id
}

/// No two of `secrets` belong to the same user.
pub open spec fn distinct_ids(secrets: Seq<SecretView>) -> bool {
    forall|i: int, j: int|
        0 <= i < secrets.len() && 0 <= j < secrets.len() && i != j ==> (#[trigger] secrets[i]).user_id
            != (#[trigger] secrets[j]).user_id
}

/// No two of `entries` are kept under the same name.
pub open spec fn distinct_names(entries: Seq<EntryRecordView>) -> bool {
    forall|i: int, j: int|
        0 <= i < entries.len() && 0 <= j < entries.len() && i != j ==> (#[trigger] entries[i]).name
            != (#[trigger] entries[j]).name
}

/// No two of `nonces` are kept under the same state.
pub open spec fn distinct_states(nonces: Seq<NonceView>) -> bool {
    forall|i: int, j: int|
        0 <= i < nonces.len() && 0 <= j < nonces.len() && i != j ==> (#[trigger] nonces[i]).state
            != (#[trigger] nonces[j]).state
}

/// The state is one that the store can be in: logins, the users of
/// passwords and of tokens, the names of entries and the states of nonces
/// are each unique; users stand in ascending order of their ids; and every
/// entry is well formed.
pub open spec fn db_wf(db: DbView) -> bool {
    &&& distinct_logins(db.users)
    &&& ordered_by_id(db.users)
    &&& distinct_ids(db.passwords)
    &&& distinct_ids(db.tokens)
    &&& distinct_names(db.entries)
    &&& distinct_states(db.nonces)
    &&& forall|i: int| 0 <= i < db.entries.len() ==> entry_wf((#[trigger] db.entries[i]).entry)
}

/// Where among `nonces` the one kept under `state` stands, if any.
pub open spec fn nonce_position(nonces: Seq<NonceView>, state: Seq<char>) -> Option<int> {
    if exists|i: int| 0 <= i < nonces.len() && (#[trigger] nonces[i]).state == state {
        Some(choose|i: int| 0 <= i < nonces.len() && (#[trigger] nonces[i]).state == state)
    } else {
        None
    }
}

/// The state in which `nonce` is the one nonce kept under `state`.
pub open spec fn with_nonce(db: DbView, state: Seq<char>, nonce: Seq<char>) -> DbView {
    DbView {
        nonces: match nonce_position(db.nonces, state) {
            Some(i) => db.nonces.update(i, NonceView { state, nonce }),
            None => db.nonces.push(NonceView { state, nonce }),
        },
        ..db
    }
}

/// What taking the nonce kept under `state` gives: the nonce, and the state
/// of the store without it; or that no nonce is kept under `state`.
pub open spec fn nonce_taken(
    db: DbView,
    state: Seq<char>,
) -> Result<(Seq<char>, DbView), ErrorView> {
    match nonce_position(db.nonces, state) {
        Some(i) => Ok((db.nonces[i].nonce, DbView { nonces: db.nonces.remove(i), ..db })),
        None => Err(ErrorView::InvalidCsrfToken(state)),
    }
}

/// Where among `secrets` the one of the user `id` stands, if there is one.
pub open spec fn secret_position(secrets: Seq<SecretView>, id: u32) -> Option<int> {
    if exists|i: int| 0 <= i < secrets.len() && (#[trigger] secrets[i]).user_id == id {
        Some(choose|i: int| 0 <= i < secrets.len() && (#[trigger] secrets[i]).user_id == id)
    } else {
        None
    }
}

/// The text kept for the user `id`, if any.
pub open spec fn secret_of(secrets: Seq<SecretView>, id: u32) -> Option<Seq<char>> {
    match secret_position(secrets, id) {
        Some(i) => Some(secrets[i].text),
        None => None,
    }
}

/// `secrets` with `text` as the one text kept for the user `id`: in place of
/// the user's former text, or at the end where the user had none.
pub open spec fn put_secret(secrets: Seq<SecretView>, id: u32, text: Seq<char>) -> Seq<SecretView> {
    match secret_position(secrets, id) {
        Some(i) => secrets.update(i, SecretView { user_id: id, text }),
        None => secrets.push(SecretView { user_id: id, text }),
    }
}

/// The token at `i` is the first of `tokens` that reads `token`.
pub open spec fn first_holder_at(tokens: Seq<SecretView>, token: Seq<char>, i: int) -> bool {
    &&& 0 <= i < tokens.len()
    &&& tokens[i].text == token
    &&& forall|j: int| 0 <= j < i ==> (#[trigger] tokens[j]).text != token
}

/// The user whom `token` authenticates: the first whose token it is.
pub open spec fn token_holder(tokens: Seq<SecretView>, token: Seq<char>) -> Option<u32> {
    if exists|i: int| first_holder_at(tokens, token, i) {
        Some(tokens[choose|i: int| first_holder_at(tokens, token, i)].user_id)
    } else {
        None
    }
}

/// `id` is the greatest id among the users of `secrets`.
pub open spec fn is_greatest_id(secrets: Seq<SecretView>, id: u32) -> bool {
    &&& exists|i: int| 0 <= i < secrets.len() && (#[trigger] secrets[i]).user_id == id
    &&& forall|i: int| 0 <= i < secrets.len() ==> (#[trigger] secrets[i]).user_id <= id
}

/// The greatest id among the users of `secrets`, if there is any secret.
pub open spec fn greatest_id(secrets: Seq<SecretView>) -> Option<u32> {
    if secrets.len() == 0 {
        None
    } else {
        Some(choose|id: u32| is_greatest_id(secrets, id))
    }
}

/// The id that the next user to register gets: one more than the greatest
/// id that holds a token, starting again at 0 after the last id there is,
/// and 0 where no token was given yet.
pub open spec fn next_user_id(db: DbView) -> u32 {
    match greatest_id(db.tokens) {
        Some(id) => if id == u32::MAX {
            0
        } else {
            (id + 1) as u32
        },
        None => 0,
    }
}

/// Where among `users` the one with the login `login` stands, if any.
pub open spec fn user_position(users: Seq<UserView>, login: Seq<char>) -> Option<int> {
    if exists|i: int| 0 <= i < users.len() && (#[trigger] users[i]).login == login {
        Some(choose|i: int| 0 <= i < users.len() && (#[trigger] users[i]).login == login)
    } else {
        None
    }
}

/// The user with the login `login`, if any.
pub open spec fn user_of_login(users: Seq<UserView>, login: Seq<char>) -> Option<UserView> {
    match user_position(users, login) {
        Some(i) => Some(users[i]),
        None => None,
    }
}

/// The login of the user who registered under `name`.
pub open spec fn login_of_name(db: DbView, name: Seq<char>) -> Seq<char> {
    db.login_prefix + name
}

/// The token of the user with the login `login`, where there is such a user
/// and the user has one.
pub open spec fn token_of_login(db: DbView, login: Seq<char>) -> Option<Seq<char>> {
    match user_of_login(db.users, login) {
        Some(user) => secret_of(db.tokens, user.id),
        None => None,
    }
}

/// The state in which `token` is the one token of the user `id`.
pub open spec fn with_token(db: DbView, id: u32, token: Seq<char>) -> DbView {
    DbView { tokens: put_secret(db.tokens, id, token), ..db }
}

/// Where among `entries` the one kept under `key` stands, if any.
pub open spec fn entry_position(entries: Seq<EntryRecordView>, key: Seq<char>) -> Option<int> {
    if exists|i: int| 0 <= i < entries.len() && (#[trigger] entries[i]).name == key {
        Some(choose|i: int| 0 <= i < entries.len() && (#[trigger] entries[i]).name == key)
    } else {
        None
    }
}

/// The entry under which nothing was published.
pub open spec fn empty_entry() -> EntryView {
    EntryView { versions: Seq::empty(), owner_ids: Seq::empty() }
}

/// The entry kept under `key`; the empty entry where none is kept.
pub open spec fn entry_of(entries: Seq<EntryRecordView>, key: Seq<char>) -> EntryView {
    match entry_position(entries, key) {
        Some(i) => entries[i].entry,
        None => empty_entry(),
    }
}

/// The entry of the crate that `name` spells.
pub open spec fn entry_named(db: DbView, name: Seq<char>) -> EntryView {
    entry_of(db.entries, normal_name(name))
}

/// `entries` with `entry` as the one entry kept under `key`: in place of the
/// former one, or at the end where there was none.
pub open spec fn put_entry(
    entries: Seq<EntryRecordView>,
    key: Seq<char>,
    entry: EntryView,
) -> Seq<EntryRecordView> {
    match entry_position(entries, key) {
        Some(i) => entries.update(i, EntryRecordView { name: key, entry }),
        None => entries.push(EntryRecordView { name: key, entry }),
    }
}

/// What an operation answers, with its error as plain values.
pub open spec fn outcome<T>(r: Result<T, Error>) -> Result<T, ErrorView> {
    match r {
        Ok(value) => Ok(value),
        Err(e) => Err(e@),
    }
}

/// The operation failed with the error `e`.
pub open spec fn failed_with<T>(r: Result<T, Error>, e: ErrorView) -> bool {
    match r {
        Ok(_) => false,
        Err(x) => x@ == e,
    }
}

/// Whether the user `user_id` may change the owners of the crate `name`:
/// the name must be allowed, the crate must exist, and the user must own it.
pub open spec fn may_edit_owners(
    db: DbView,
    user_id: u32,
    name: Seq<char>,
) -> Result<bool, ErrorView> {
    let entry = entry_named(db, name);
    if !valid_name(name) {
        Err(ErrorView::InvalidCrateName(lower_name(name)))
    } else if entry_is_empty(entry) {
        Err(ErrorView::CrateNotFoundInDb(name))
    } else if !entry.owner_ids.contains(user_id) {
        Err(ErrorView::InvalidUser(user_id))
    } else {
        Ok(true)
    }
}

/// Whether the user `user_id` may publish the version `vers` of the crate
/// `name`. Anybody may publish a crate that does not exist yet. Of an
/// existing crate only an owner may publish, and only a version that is not
/// there yet; the answer is then whether `name` is spelled as the crate's
/// newest version spells it.
pub open spec fn may_add_metadata(
    db: DbView,
    user_id: u32,
    name: Seq<char>,
    vers: Seq<char>,
) -> Result<bool, ErrorView> {
    let entry = entry_named(db, name);
    if !valid_name(name) {
        Err(ErrorView::InvalidCrateName(lower_name(name)))
    } else if entry_is_empty(entry) {
        Ok(true)
    } else if !entry.owner_ids.contains(user_id) {
        Err(ErrorView::InvalidUser(user_id))
    } else if version_position(entry.versions, vers) is Some {
        Err(ErrorView::VersionExists(name, vers))
    } else {
        match newest_position(entry.versions, true) {
            Some(j) => Ok(entry.versions[j].name == name),
            None => Ok(false),
        }
    }
}

/// Whether the user `user_id` may yank or unyank the version `vers` of the
/// crate `name`: the crate and the version must exist and the user must own
/// the crate; the answer is then whether `name` is spelled as that version
/// spells it.
pub open spec fn may_edit_package(
    db: DbView,
    user_id: u32,
    name: Seq<char>,
    vers: Seq<char>,
) -> Result<bool, ErrorView> {
    let entry = entry_named(db, name);
    if !valid_name(name) {
        Err(ErrorView::InvalidCrateName(lower_name(name)))
    } else if entry_is_empty(entry) {
        Err(ErrorView::CrateNotFoundInDb(name))
    } else if !entry.owner_ids.contains(user_id) {
        Err(ErrorView::InvalidUser(user_id))
    } else {
        match version_position(entry.versions, vers) {
            Some(j) => Ok(entry.versions[j].name == name),
            None => Err(ErrorView::VersionNotFoundInDb(vers)),
        }
    }
}

/// `versions` with `metadata` as the one metadata of its version: in place
/// of the former one, or at the end where the version is new.
pub open spec fn put_version(
    versions: Seq<MetadataView>,
    metadata: MetadataView,
) -> Seq<MetadataView> {
    match version_position(versions, metadata.vers) {
        Some(j) => versions.update(j, metadata),
        None => versions.push(metadata),
    }
}

/// The state after the user `owner_id` published `metadata`. Whoever
/// publishes under an empty entry becomes its first owner; under any other
/// entry only an owner publishes.
pub open spec fn with_metadata(
    db: DbView,
    owner_id: u32,
    metadata: MetadataView,
) -> Result<DbView, ErrorView> {
    let key = normal_name(metadata.name);
    let entry = entry_of(db.entries, key);
    let owner_ids = if entry_is_empty(entry) {
        seq![owner_id]
    } else {
        entry.owner_ids
    };
    if !owner_ids.contains(owner_id) {
        Err(ErrorView::InvalidUser(owner_id))
    } else {
        Ok(
            DbView {
                entries: put_entry(
                    db.entries,
                    key,
                    EntryView { versions: put_version(entry.versions, metadata), owner_ids },
                ),
                ..db
            },
        )
    }
}

/// The state after the version `vers` of the crate `name` was marked as
/// yanked, or as not yanked. Marking a version as what it already is fails.
pub open spec fn with_yanked(
    db: DbView,
    name: Seq<char>,
    vers: Seq<char>,
    yanked: bool,
) -> Result<DbView, ErrorView> {
    let key = normal_name(name);
    let entry = entry_of(db.entries, key);
    match version_position(entry.versions, vers) {
        None => Err(ErrorView::VersionNotFoundInDb(vers)),
        Some(j) => if entry.versions[j].yanked == yanked {
            if yanked {
                Err(ErrorView::AlreadyYanked(name, vers))
            } else {
                Err(ErrorView::NotYetYanked(name, vers))
            }
        } else {
            Ok(
                DbView {
                    entries: put_entry(
                        db.entries,
                        key,
                        EntryView {
                            versions: entry.versions.update(
                                j,
                                MetadataView { yanked, ..entry.versions[j] },
                            ),
                            ..entry
                        },
                    ),
                    ..db
                },
            )
        },
    }
}

/// Those of `users` whose id is among `ids`, in the order of `users`.
pub open spec fn owners_among(users: Seq<UserView>, ids: Seq<u32>) -> Seq<UserView>
    decreases users.len(),
{
    if users.len() == 0 {
        Seq::empty()
    } else if ids.contains(users.last().id) {
        owners_among(users.drop_last(), ids).push(users.last())
    } else {
        owners_among(users.drop_last(), ids)
    }
}

/// Those of `logins` that are the login of none of `users`, in order.
pub open spec fn missing_logins(
    users: Seq<UserView>,
    logins: Seq<Seq<char>>,
) -> Seq<Seq<char>>
    decreases logins.len(),
{
    if logins.len() == 0 {
        Seq::empty()
    } else if user_position(users, logins.last()) is None {
        missing_logins(users, logins.drop_last()).push(logins.last())
    } else {
        missing_logins(users, logins.drop_last())
    }
}

/// The ids of those of `users` whose login is among `logins`, in the order
/// of `logins`.
pub open spec fn ids_of_logins(users: Seq<UserView>, logins: Seq<Seq<char>>) -> Seq<u32>
    decreases logins.len(),
{
    if logins.len() == 0 {
        Seq::empty()
    } else {
        match user_position(users, logins.last()) {
            Some(i) => ids_of_logins(users, logins.drop_last()).push(users[i].id),
            None => ids_of_logins(users, logins.drop_last()),
        }
    }
}

/// `all` lists, in ascending order and each once, exactly the ids that are
/// in `old` or in `added`.
pub open spec fn is_union(all: Seq<u32>, old: Seq<u32>, added: Seq<u32>) -> bool {
    &&& ascending(all)
    &&& forall|id: u32| all.contains(id) <==> (old.contains(id) || added.contains(id))
}

/// Those of `old` that are not among `removed`, in order.
pub open spec fn without_ids(old: Seq<u32>, removed: Seq<u32>) -> Seq<u32>
    decreases old.len(),
{
    if old.len() == 0 {
        Seq::empty()
    } else if removed.contains(old.last()) {
        without_ids(old.drop_last(), removed)
    } else {
        without_ids(old.drop_last(), removed).push(old.last())
    }
}

/// `after` is `before` with the users whose logins are `logins` added to
/// the owners of the crate `name`.
pub open spec fn owners_merged(
    before: DbView,
    after: DbView,
    name: Seq<char>,
    logins: Seq<Seq<char>>,
) -> bool {
    &&& after == with_owner_ids(before, name, entry_named(after, name).owner_ids)
    &&& is_union(
        entry_named(after, name).owner_ids,
        entry_named(before, name).owner_ids,
        ids_of_logins(before.users, logins),
    )
}

/// The state after the users whose logins are `logins` were taken from the
/// owners of the crate `name`.
pub open spec fn with_owners_removed(
    db: DbView,
    name: Seq<char>,
    logins: Seq<Seq<char>>,
) -> DbView {
    with_owner_ids(
        db,
        name,
        without_ids(entry_named(db, name).owner_ids, ids_of_logins(db.users, logins)),
    )
}

/// The state in which the owners of the crate `name` are `owner_ids`.
pub open spec fn with_owner_ids(db: DbView, name: Seq<char>, owner_ids: Seq<u32>) -> DbView {
    let key = normal_name(name);
    DbView {
        entries: put_entry(db.entries, key, EntryView { owner_ids, ..entry_of(db.entries, key) }),
        ..db
    }
}

/// Removing ids from an ascending list leaves an ascending list: the ids
/// that were in it and are not removed.
pub proof fn lemma_without_ids(old: Seq<u32>, removed: Seq<u32>)
    requires
        ascending(old),
    ensures
        ascending(without_ids(old, removed)),
        forall|id: u32|
            without_ids(old, removed).contains(id) <==> (old.contains(id) && !removed.contains(id)),
    decreases old.len(),
{
    let kept = without_ids(old, removed);
    if old.len() > 0 {
        let front = old.drop_last();
        let last = old.last();
        lemma_without_ids(front, removed);
        let kept_front = without_ids(front, removed);
        assert forall|id: u32| front.contains(id) implies old.contains(id) && id < last by {
            let j = choose|j: int| 0 <= j < front.len() && front[j] == id;
            assert(old[j] == id);
            assert(old[j] < old[old.len() - 1]);
        }
        assert forall|id: u32| old.contains(id) implies front.contains(id) || id == last by {
            let j = choose|j: int| 0 <= j < old.len() && old[j] == id;
            if j < front.len() {
                assert(front[j] == id);
            }
        }
        assert(old[old.len() - 1] == last);
        if removed.contains(last) {
            assert(kept == kept_front);
        } else {
            assert(kept == kept_front.push(last));
            assert forall|id: u32| kept.contains(id) <==> (kept_front.contains(id) || id == last) by {
                vstd::seq_lib::lemma_seq_contains_after_push(kept_front, last, id);
            }
            assert forall|a: int, b: int| 0 <= a < b < kept.len() implies kept[a] < kept[b] by {
                assert(kept[a] == kept_front[a]);
                if b == kept_front.len() {
                    assert(kept[b] == last);
                    assert(kept_front.contains(kept_front[a]));
                    assert(front.contains(kept_front[a]));
                } else {
                    assert(kept[b] == kept_front[b]);
                    assert(kept_front[a] < kept_front[b]);
                }
            }
        }
    }
}

/// Nobody is among the owners of a crate without owners.
pub proof fn lemma_no_owners(users: Seq<UserView>)
    ensures
        owners_among(users, Seq::empty()) == Seq::<UserView>::empty(),
    decreases users.len(),
{
    if users.len() > 0 {
        lemma_no_owners(users.drop_last());
    }
}

/// The entry put under a name is the entry found under it.
pub proof fn lemma_entry_put(entries: Seq<EntryRecordView>, key: Seq<char>, entry: EntryView)
    requires
        distinct_names(entries),
    ensures
        distinct_names(put_entry(entries, key, entry)),
        entry_of(put_entry(entries, key, entry), key) == entry,
        forall|other: Seq<char>|
            other != key ==> entry_of(put_entry(entries, key, entry), other) == entry_of(entries, other),
{
    let after = put_entry(entries, key, entry);
    let at = match entry_position(entries, key) {
        Some(i) => i,
        None => entries.len() as int,
    };
    assert(after[at].name == key);
    assert forall|i: int, j: int|
        0 <= i < after.len() && 0 <= j < after.len() && i != j implies (#[trigger] after[i]).name != (
    #[trigger] after[j]).name by {
        if i != at && j != at {
            assert(entries[i].name != entries[j].name);
        } else if i == at && j < entries.len() {
            assert(entries[j].name != key || entry_position(entries, key) is Some);
        } else if j == at && i < entries.len() {
            assert(entries[i].name != key || entry_position(entries, key) is Some);
        }
    }
    let found = choose|i: int| 0 <= i < after.len() && (#[trigger] after[i]).name == key;
    assert(found == at);
    assert forall|other: Seq<char>| other != key implies entry_of(after, other) == entry_of(
        entries,
        other,
    ) by {
        if entry_position(entries, other) is Some {
            let i = entry_position(entries, other)->0;
            assert(after[i].name == other);
            let j = choose|j: int| 0 <= j < after.len() && (#[trigger] after[j]).name == other;
            assert(j == i);
        } else {
            if entry_position(after, other) is Some {
                let j = entry_position(after, other)->0;
                assert(j != at);
                assert(entries[j].name == other);
            }
        }
    }
}

/// A new user with the id `id` goes to the place `p` among `users`: behind
/// every user whose id is not greater.
pub open spec fn is_place(users: Seq<UserView>, id: u32, p: int) -> bool {
    &&& 0 <= p <= users.len()
    &&& forall|j: int| 0 <= j < p ==> (#[trigger] users[j]).id <= id
    &&& forall|j: int| p <= j < users.len() ==> (#[trigger] users[j]).id > id
}

/// The place among `users` to which a new user with the id `id` goes.
pub open spec fn place_of(users: Seq<UserView>, id: u32) -> int {
    choose|p: int| is_place(users, id, p)
}

/// The state after `user` registered and `encoded` became the user's
/// password hash.
pub open spec fn with_user(db: DbView, user: UserView, encoded: Seq<char>) -> DbView {
    DbView {
        users: db.users.insert(place_of(db.users, user.id), user),
        passwords: put_secret(db.passwords, user.id, encoded),
        ..db
    }
}

/// What registering `user` with `password`, hashed under `salt`, does: it
/// fails where the login is taken or the hasher refuses, and changes
/// nothing then.
pub open spec fn user_added(
    before: DbView,
    after: DbView,
    r: Result<(), Error>,
    user: UserView,
    password: Seq<char>,
    salt: Seq<char>,
) -> bool {
    if user_position(before.users, user.login) is Some {
        &&& after == before
        &&& r matches Err(e)
        &&& e@ == ErrorView::UserExists(user.login)
    } else {
        match password_hash(password, salt) {
            Some(encoded) => r is Ok && after == with_user(before, user, encoded),
            None => after == before && r matches Err(Error::Argon2(_)),
        }
    }
}

/// The store holds a password hash for the user `id`, and `password`
/// verifies against it.
pub open spec fn password_accepted(db: DbView, id: u32, password: Seq<char>) -> bool {
    match secret_of(db.passwords, id) {
        Some(encoded) => password_matches(encoded, password) == Some(true),
        None => false,
    }
}

/// What checking `password` for the user `id` answers.
pub open spec fn password_checked(
    db: DbView,
    id: u32,
    password: Seq<char>,
    r: Result<bool, Error>,
) -> bool {
    match secret_of(db.passwords, id) {
        None => r matches Err(e) && e@ == ErrorView::InvalidUser(id),
        Some(encoded) => match password_matches(encoded, password) {
            Some(matches) => r == Ok::<bool, Error>(matches),
            None => r matches Err(Error::Argon2(_)),
        },
    }
}

/// What changing the password of the user `id` from `old_password` to
/// `new_password`, hashed under `salt`, does. Only where the old password
/// verifies and differs from the new one does the new hash take the place of
/// the old one; it then verifies against the new password.
pub open spec fn password_changed(
    before: DbView,
    after: DbView,
    r: Result<(), Error>,
    id: u32,
    old_password: Seq<char>,
    new_password: Seq<char>,
    salt: Seq<char>,
) -> bool {
    if old_password == new_password {
        after == before && failed_with(r, ErrorView::SamePasswords)
    } else {
        match secret_of(before.passwords, id) {
            None => after == before && failed_with(r, ErrorView::InvalidUser(id)),
            Some(current) => match password_matches(current, old_password) {
                None => after == before && r matches Err(Error::Argon2(_)),
                Some(false) => after == before && failed_with(r, ErrorView::InvalidPassword),
                Some(true) => match password_hash(new_password, salt) {
                    None => after == before && r matches Err(Error::Argon2(_)),
                    Some(encoded) => {
                        &&& r is Ok
                        &&& after == DbView {
                            passwords: put_secret(before.passwords, id, encoded),
                            ..before
                        }
                        &&& password_matches(encoded, new_password) == Some(true)
                    },
                },
            },
        }
    }
}

/// The text put for a user is the text found for that user, and the texts
/// of the other users stay.
pub proof fn lemma_secret_put(secrets: Seq<SecretView>, id: u32, text: Seq<char>)
    requires
        distinct_ids(secrets),
    ensures
        distinct_ids(put_secret(secrets, id, text)),
        secret_of(put_secret(secrets, id, text), id) == Some(text),
        forall|other: u32|
            other != id ==> secret_of(put_secret(secrets, id, text), other) == secret_of(
                secrets,
                other,
            ),
{
    let after = put_secret(secrets, id, text);
    let at = match secret_position(secrets, id) {
        Some(i) => i,
        None => secrets.len() as int,
    };
    assert(after[at].user_id == id);
    assert forall|i: int, j: int|
        0 <= i < after.len() && 0 <= j < after.len() && i != j implies (#[trigger] after[i]).user_id
        != (#[trigger] after[j]).user_id by {
        if i != at && j != at {
            assert(secrets[i].user_id != secrets[j].user_id);
        } else if i == at && j < secrets.len() {
            assert(secrets[j].user_id != id || secret_position(secrets, id) is Some);
        } else if j == at && i < secrets.len() {
            assert(secrets[i].user_id != id || secret_position(secrets, id) is Some);
        }
    }
    let found = choose|i: int| 0 <= i < after.len() && (#[trigger] after[i]).user_id == id;
    assert(found == at);
    assert forall|other: u32| other != id implies secret_of(after, other) == secret_of(
        secrets,
        other,
    ) by {
        if secret_position(secrets, other) is Some {
            let i = secret_position(secrets, other)->0;
            assert(after[i].user_id == other);
            let j = choose|j: int| 0 <= j < after.len() && (#[trigger] after[j]).user_id == other;
            assert(j == i);
        } else {
            if secret_position(after, other) is Some {
                let j = secret_position(after, other)->0;
                assert(j != at);
                assert(secrets[j].user_id == other);
            }
        }
    }
}

/// The row that a search shows for `entry`: that of its newest version
/// that is not yanked. An entry of which every version is yanked has none.
pub open spec fn row_of(entry: EntryView) -> Option<SearchedMetadataView> {
    match newest_position(entry.versions, false) {
        Some(j) => Some(search_row(entry.versions[j])),
        None => None,
    }
}

/// The rows of the entries among `entries` whose name holds `needle`, in
/// the order of `entries`.
pub open spec fn found_rows(
    entries: Seq<EntryRecordView>,
    needle: Seq<char>,
) -> Seq<SearchedMetadataView>
    decreases entries.len(),
{
    if entries.len() == 0 {
        Seq::empty()
    } else {
        let before = found_rows(entries.drop_last(), needle);
        let last = entries.last();
        if contains_text(last.name, needle) {
            match row_of(last.entry) {
                Some(row) => before.push(row),
                None => before,
            }
        } else {
            before
        }
    }
}

/// Every row that a search for `text` finds.
pub open spec fn search_rows(db: DbView, text: Seq<char>) -> Seq<SearchedMetadataView> {
    found_rows(db.entries, normal_name(text))
}

/// The first `limit` of `rows`, or all of them where they are fewer.
pub open spec fn first_rows(
    rows: Seq<SearchedMetadataView>,
    limit: usize,
) -> Seq<SearchedMetadataView> {
    if limit < rows.len() {
        rows.take(limit as int)
    } else {
        rows
    }
}

/// Some version of `entry` is not yanked.
pub open spec fn has_unyanked(entry: EntryView) -> bool {
    exists|j: int| counts(entry.versions, false, j)
}

/// `crates` and `total` answer a search for `text` that asks for `limit`
/// rows: `total` counts the rows found, `crates` are the first of them, and
/// every entry that matches and has a version that is not yanked has a row.
pub open spec fn search_answer(
    db: DbView,
    text: Seq<char>,
    limit: usize,
    crates: Seq<SearchedMetadataView>,
    total: usize,
) -> bool {
    &&& total == search_rows(db, text).len()
    &&& crates == first_rows(search_rows(db, text), limit)
    &&& forall|i: int|
        0 <= i < db.entries.len() && contains_text(
            (#[trigger] db.entries[i]).name,
            normal_name(text),
        ) && has_unyanked(db.entries[i].entry) ==> row_of(db.entries[i].entry) is Some
}

} // verus!
