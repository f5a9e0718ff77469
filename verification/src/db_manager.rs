//! The metadata store: users, their passwords and tokens, and the entry of
//! every crate.
//!
//! A [`DbManager`] holds the whole state in memory. Its view, a [`DbView`],
//! is that state as plain values, and every operation is specified by a
//! function on views. A host that persists the state reads it out with the
//! accessors and restores it with [`DbManager::from_parts`].

pub mod lemmas;
pub mod model;

use crate::db_manager::model::{
    db_wf, distinct_ids, distinct_logins, distinct_names, distinct_states, empty_entry, entry_named,
    entry_of, entry_position, failed_with, first_holder_at, first_rows, found_rows, greatest_id,
    has_unyanked, ids_of_logins, is_greatest_id, is_place, is_union, lemma_entry_put,
    lemma_no_owners, lemma_secret_put, lemma_without_ids, login_of_name, may_add_metadata,
    may_edit_owners, may_edit_package, missing_logins, nonce_position, nonce_taken, ordered_by_id,
    outcome, owners_among, owners_merged, password_accepted, password_changed, password_checked,
    place_of, put_entry, put_secret, put_version, row_of, search_answer, secret_position,
    token_holder, token_of_login, user_added, user_of_login, user_position, with_metadata,
    with_nonce, with_owners_removed, with_token, with_yanked, without_ids, DbView, EntryRecordView,
    NonceView, SecretView,
};
use crate::error::{Error, ErrorView};
use crate::models::{
    ascending, entry_wf, newest_index, search_row, version_position, Entry, EntryView, Metadata,
    MetadataView, Query, Search, SearchedMetadata, User,
};
use crate::names::{check_crate_name, normalized_crate_name};
use crate::password::{
    encode_password, is_secret, matches_password, random_alphanumeric_string, SECRET_LEN,
};
use crate::text::{chars_of, contains_chars, contains_text, distinct_texts, same_text};
use crate::version::Version;
use vstd::prelude::*;
use vstd::string::StringExecFns;

verus! {

/// A text kept for a user: an encoded password hash, or a token.
#[derive(Debug)]
pub struct Secret {
    pub user_id: u32,
    pub text: String,
}

impl DeepView for Secret {
    type V = SecretView;

    open spec fn deep_view(&self) -> SecretView {
        SecretView { user_id: self.user_id, text: self.text@ }
    }
}

impl View for Secret {
    type V = SecretView;

    open spec fn view(&self) -> SecretView {
        self.deep_view()
    }
}

/// A crate's entry, kept under the crate's normalized name.
#[derive(Debug)]
pub struct EntryRecord {
    pub name: String,
    pub entry: Entry,
}

impl DeepView for EntryRecord {
    type V = EntryRecordView;

    open spec fn deep_view(&self) -> EntryRecordView {
        EntryRecordView { name: self.name@, entry: self.entry@ }
    }
}

impl View for EntryRecord {
    type V = EntryRecordView;

    open spec fn view(&self) -> EntryRecordView {
        self.deep_view()
    }
}

/// The nonce kept for a federated login that is under way, under the state
/// that the login was started with.
#[derive(Debug)]
pub struct NonceRecord {
    pub state: String,
    pub nonce: String,
}

impl DeepView for NonceRecord {
    type V = NonceView;

    open spec fn deep_view(&self) -> NonceView {
        NonceView { state: self.state@, nonce: self.nonce@ }
    }
}

impl View for NonceRecord {
    type V = NonceView;

    open spec fn view(&self) -> NonceView {
        self.deep_view()
    }
}

/// Where the secret of the user `id` stands.
fn find_secret(secrets: &Vec<Secret>, id: u32) -> (r: Option<usize>)
    requires
        distinct_ids(secrets.deep_view()),
    ensures
        r == match secret_position(secrets.deep_view(), id) {
            Some(i) => Some(i as usize),
            None => None,
        },
        r matches Some(i) ==> i < secrets.len() && secrets[i as int].user_id == id,
{
    let ghost view = secrets.deep_view();
    let mut i: usize = 0;
    while i < secrets.len()
        invariant
            i <= secrets.len(),
            view == secrets.deep_view(),
            distinct_ids(view),
            forall|k: int| 0 <= k < i ==> (#[trigger] view[k]).user_id != id,
        decreases secrets.len() - i,
    {
        if secrets[i].user_id == id {
            proof {
                assert(view[i as int].user_id == id);
                let j = choose|j: int| 0 <= j < view.len() && (#[trigger] view[j]).user_id == id;
                assert(j == i);
            }
            return Some(i);
        }
        i += 1;
    }
    None
}

/// Keeps `text` as the one text of the user `id`.
fn store_secret(secrets: &mut Vec<Secret>, id: u32, text: String)
    requires
        distinct_ids(old(secrets).deep_view()),
    ensures
        final(secrets).deep_view() == put_secret(old(secrets).deep_view(), id, text@),
        distinct_ids(final(secrets).deep_view()),
{
    let ghost before = secrets.deep_view();
    match find_secret(secrets, id) {
        Some(i) => {
            secrets.set(i, Secret { user_id: id, text });
        },
        None => {
            secrets.push(Secret { user_id: id, text });
        },
    }
    assert(secrets.deep_view() =~= put_secret(before, id, text@));
}

/// Adds `id` to the ascending list `ids`, unless it is there already.
fn insert_id(ids: &mut Vec<u32>, id: u32)
    requires
        ascending(old(ids)@),
    ensures
        ascending(final(ids)@),
        forall|x: u32| final(ids)@.contains(x) <==> (old(ids)@.contains(x) || x == id),
{
    let ghost before = ids@;
    let mut p: usize = 0;
    while p < ids.len() && ids[p] < id
        invariant
            p <= ids.len(),
            ids@ == before,
            forall|j: int| 0 <= j < p ==> before[j] < id,
        decreases ids.len() - p,
    {
        p += 1;
    }
    if p < ids.len() && ids[p] == id {
        assert(before.contains(id));
        return ;
    }
    ids.insert(p, id);
    proof {
        let after = ids@;
        assert(after.len() == before.len() + 1);
        assert(after[p as int] == id);
        assert forall|j: int| 0 <= j < p implies after[j] == before[j] by {}
        assert forall|j: int| p < j < after.len() implies after[j] == before[j - 1] by {}
        assert forall|x: u32| after.contains(x) <==> (before.contains(x) || x == id) by {
            if after.contains(x) {
                let k = choose|k: int| 0 <= k < after.len() && after[k] == x;
                if k < p {
                    assert(before[k] == x);
                } else if k > p {
                    assert(before[k - 1] == x);
                }
            }
            if before.contains(x) {
                let k = choose|k: int| 0 <= k < before.len() && before[k] == x;
                if k < p {
                    assert(after[k] == x);
                } else {
                    assert(after[k + 1] == x);
                }
            }
        }
        assert forall|a: int, b: int| 0 <= a < b < after.len() implies after[a] < after[b] by {
            if a < p && b > p {
                assert(before[a] < before[b - 1]);
            } else if a > p {
                assert(before[a - 1] < before[b - 1]);
            } else if b < p {
                assert(before[a] < before[b]);
            }
        }
    }
}

/// Whether `id` is among `ids`.
fn has_id(ids: &Vec<u32>, id: u32) -> (r: bool)
    ensures
        r == ids@.contains(id),
{
    let mut i: usize = 0;
    while i < ids.len()
        invariant
            i <= ids.len(),
            forall|k: int| 0 <= k < i ==> ids@[k] != id,
        decreases ids.len() - i,
    {
        if ids[i] == id {
            return true;
        }
        i += 1;
    }
    false
}

/// Adds each of `added` to the ascending list `ids`, each once.
fn merge_ids(ids: &mut Vec<u32>, added: &Vec<u32>)
    requires
        ascending(old(ids)@),
    ensures
        is_union(final(ids)@, old(ids)@, added@),
{
    let ghost before = ids@;
    let mut i: usize = 0;
    assert(added@.take(0) =~= Seq::empty());
    while i < added.len()
        invariant
            i <= added.len(),
            ascending(ids@),
            forall|x: u32|
                ids@.contains(x) <==> (before.contains(x) || added@.take(i as int).contains(x)),
        decreases added.len() - i,
    {
        let ghost so_far = ids@;
        let ghost id = added@[i as int];
        let ghost taken = added@.take(i as int);
        insert_id(ids, added[i]);
        i += 1;
        proof {
            assert(added@.take(i as int) =~= taken.push(id));
            assert forall|x: u32|
                ids@.contains(x) <==> (before.contains(x) || added@.take(i as int).contains(x)) by {
                assert(so_far.contains(x) <==> (before.contains(x) || taken.contains(x)));
                assert(ids@.contains(x) <==> (so_far.contains(x) || x == id));
                vstd::seq_lib::lemma_seq_contains_after_push(taken, id, x);
            }
        }
    }
    proof {
        assert(added@.take(i as int) == added@);
        assert forall|x: u32| ids@.contains(x) <==> (before.contains(x) || added@.contains(x)) by {
            assert(ids@.contains(x) <==> (before.contains(x) || added@.take(i as int).contains(x)));
        }
        assert(ascending(ids@));
        assert(is_union(ids@, before, added@));
    }
}

/// Those of `ids` that are not among `removed`, in order.
fn retain_ids(ids: &Vec<u32>, removed: &Vec<u32>) -> (kept: Vec<u32>)
    ensures
        kept@ == without_ids(ids@, removed@),
{
    let mut kept: Vec<u32> = Vec::new();
    let mut i: usize = 0;
    assert(ids@.take(0) =~= Seq::empty());
    while i < ids.len()
        invariant
            i <= ids.len(),
            kept@ == without_ids(ids@.take(i as int), removed@),
        decreases ids.len() - i,
    {
        assert(ids@.take(i + 1).drop_last() == ids@.take(i as int));
        if !has_id(removed, ids[i]) {
            kept.push(ids[i]);
        }
        i += 1;
    }
    assert(ids@.take(i as int) == ids@);
    kept
}

fn users_distinct(users: &Vec<User>) -> (r: bool)
    ensures
        r == distinct_logins(users.deep_view()),
{
    let ghost view = users.deep_view();
    let mut keys: Vec<String> = Vec::new();
    let mut i: usize = 0;
    while i < users.len()
        invariant
            i <= users.len(),
            view == users.deep_view(),
            keys.len() == i,
            forall|k: int| 0 <= k < i ==> keys@[k]@ == (#[trigger] view[k]).login,
        decreases users.len() - i,
    {
        keys.push(users[i].login.clone());
        i += 1;
    }
    let r = distinct_texts(&keys);
    proof {
        if r {
            assert forall|a: int, b: int|
                0 <= a < view.len() && 0 <= b < view.len() && a != b implies (#[trigger] view[a]).login
                != (#[trigger] view[b]).login by {
                assert(keys@[a]@ != keys@[b]@);
            }
        } else if distinct_logins(view) {
            assert forall|a: int, b: int|
                0 <= a < keys.len() && 0 <= b < keys.len() && a != b implies keys@[a]@ != keys@[b]@ by {
                assert(view[a].login != view[b].login);
            }
        }
    }
    r
}

fn states_distinct(nonces: &Vec<NonceRecord>) -> (r: bool)
    ensures
        r == distinct_states(nonces.deep_view()),
{
    let ghost view = nonces.deep_view();
    let mut keys: Vec<String> = Vec::new();
    let mut i: usize = 0;
    while i < nonces.len()
        invariant
            i <= nonces.len(),
            view == nonces.deep_view(),
            keys.len() == i,
            forall|k: int| 0 <= k < i ==> keys@[k]@ == (#[trigger] view[k]).state,
        decreases nonces.len() - i,
    {
        keys.push(nonces[i].state.clone());
        i += 1;
    }
    let r = distinct_texts(&keys);
    proof {
        if r {
            assert forall|a: int, b: int|
                0 <= a < view.len() && 0 <= b < view.len() && a != b implies (#[trigger] view[a]).state
                != (#[trigger] view[b]).state by {
                assert(keys@[a]@ != keys@[b]@);
            }
        } else if distinct_states(view) {
            assert forall|a: int, b: int|
                0 <= a < keys.len() && 0 <= b < keys.len() && a != b implies keys@[a]@ != keys@[b]@ by {
                assert(view[a].state != view[b].state);
            }
        }
    }
    r
}

fn names_distinct(entries: &Vec<EntryRecord>) -> (r: bool)
    ensures
        r == distinct_names(entries.deep_view()),
{
    let ghost view = entries.deep_view();
    let mut keys: Vec<String> = Vec::new();
    let mut i: usize = 0;
    while i < entries.len()
        invariant
            i <= entries.len(),
            view == entries.deep_view(),
            keys.len() == i,
            forall|k: int| 0 <= k < i ==> keys@[k]@ == (#[trigger] view[k]).name,
        decreases entries.len() - i,
    {
        keys.push(entries[i].name.clone());
        i += 1;
    }
    let r = distinct_texts(&keys);
    proof {
        if r {
            assert forall|a: int, b: int|
                0 <= a < view.len() && 0 <= b < view.len() && a != b implies (#[trigger] view[a]).name
                != (#[trigger] view[b]).name by {
                assert(keys@[a]@ != keys@[b]@);
            }
        } else if distinct_names(view) {
            assert forall|a: int, b: int|
                0 <= a < keys.len() && 0 <= b < keys.len() && a != b implies keys@[a]@ != keys@[b]@ by {
                assert(view[a].name != view[b].name);
            }
        }
    }
    r
}

fn users_ordered(users: &Vec<User>) -> (r: bool)
    ensures
        r == ordered_by_id(users.deep_view()),
{
    let ghost view = users.deep_view();
    if users.len() < 2 {
        return true;
    }
    let mut j: usize = 1;
    while j < users.len()
        invariant
            1 <= j <= users.len(),
            view == users.deep_view(),
            forall|a: int, b: int| 0 <= a < b < j ==> (#[trigger] view[a]).id <= (#[trigger] view[b]).id,
        decreases users.len() - j,
    {
        if users[j - 1].id > users[j].id {
            assert(!(view[j - 1].id <= view[j as int].id));
            return false;
        }
        proof {
            assert forall|a: int, b: int| 0 <= a < b < j + 1 implies (#[trigger] view[a]).id <= (
            #[trigger] view[b]).id by {
                if b == j && a < j - 1 {
                    assert(view[a].id <= view[j - 1].id);
                }
            }
        }
        j += 1;
    }
    true
}

fn ids_distinct(secrets: &Vec<Secret>) -> (r: bool)
    ensures
        r == distinct_ids(secrets.deep_view()),
{
    let ghost view = secrets.deep_view();
    let mut i: usize = 0;
    while i < secrets.len()
        invariant
            i <= secrets.len(),
            view == secrets.deep_view(),
            forall|a: int, b: int| 0 <= b < a < i ==> (#[trigger] view[a]).user_id != (#[trigger] view[b]).user_id,
        decreases secrets.len() - i,
    {
        let mut j: usize = 0;
        while j < i
            invariant
                j <= i,
                i < secrets.len(),
                view == secrets.deep_view(),
                forall|b: int| 0 <= b < j ==> view[i as int].user_id != (#[trigger] view[b]).user_id,
            decreases i - j,
        {
            if secrets[i].user_id == secrets[j].user_id {
                assert(view[i as int].user_id == view[j as int].user_id);
                return false;
            }
            j += 1;
        }
        i += 1;
    }
    assert forall|a: int, b: int|
        0 <= a < view.len() && 0 <= b < view.len() && a != b implies (#[trigger] view[a]).user_id != (
    #[trigger] view[b]).user_id by {
        if b < a {
            assert(view[a].user_id != view[b].user_id);
        } else {
            assert(view[b].user_id != view[a].user_id);
        }
    }
    true
}

fn entries_wf(entries: &Vec<EntryRecord>) -> (r: bool)
    ensures
        r == forall|i: int|
            0 <= i < entries.len() ==> entry_wf((#[trigger] entries.deep_view()[i]).entry),
{
    let ghost view = entries.deep_view();
    let mut i: usize = 0;
    while i < entries.len()
        invariant
            i <= entries.len(),
            view == entries.deep_view(),
            forall|k: int| 0 <= k < i ==> entry_wf((#[trigger] view[k]).entry),
        decreases entries.len() - i,
    {
        if !entries[i].entry.is_well_formed() {
            assert(!entry_wf(view[i as int].entry));
            return false;
        }
        i += 1;
    }
    true
}

/// The metadata store.
#[derive(Debug)]
pub struct DbManager {
    login_prefix: String,
    users: Vec<User>,
    passwords: Vec<Secret>,
    tokens: Vec<Secret>,
    entries: Vec<EntryRecord>,
    nonces: Vec<NonceRecord>,
}

impl View for DbManager {
    type V = DbView;

    closed spec fn view(&self) -> DbView {
        DbView {
            login_prefix: self.login_prefix@,
            users: self.users.deep_view(),
            passwords: self.passwords.deep_view(),
            tokens: self.tokens.deep_view(),
            entries: self.entries.deep_view(),
            nonces: self.nonces.deep_view(),
        }
    }
}

impl DbManager {
    /// An empty store whose users get logins that start with `login_prefix`.
    pub fn new(login_prefix: String) -> (db: DbManager)
        ensures
            db_wf(db@),
            db@ == (DbView {
                login_prefix: login_prefix@,
                users: Seq::empty(),
                passwords: Seq::empty(),
                tokens: Seq::empty(),
                entries: Seq::empty(),
                nonces: Seq::empty(),
            }),
    {
        let db = DbManager {
            login_prefix,
            users: Vec::new(),
            passwords: Vec::new(),
            tokens: Vec::new(),
            entries: Vec::new(),
            nonces: Vec::new(),
        };
        assert(db@.users =~= Seq::empty());
        assert(db@.passwords =~= Seq::empty());
        assert(db@.tokens =~= Seq::empty());
        assert(db@.entries =~= Seq::empty());
        assert(db@.nonces =~= Seq::empty());
        db
    }

    /// The prefix of the logins of the users who register by name.
    pub fn get_login_prefix(&self) -> (prefix: &str)
        ensures
            prefix@ == self@.login_prefix,
    {
        self.login_prefix.as_str()
    }

    /// The users, in ascending order of their ids.
    pub fn users(&self) -> (users: &Vec<User>)
        ensures
            users.deep_view() == self@.users,
    {
        &self.users
    }

    /// The encoded password hash of each user who has a password.
    pub fn passwords(&self) -> (passwords: &Vec<Secret>)
        ensures
            passwords.deep_view() == self@.passwords,
    {
        &self.passwords
    }

    /// The token of each user who has one.
    pub fn tokens(&self) -> (tokens: &Vec<Secret>)
        ensures
            tokens.deep_view() == self@.tokens,
    {
        &self.tokens
    }

    /// The entry of each crate, under its normalized name.
    pub fn entries(&self) -> (entries: &Vec<EntryRecord>)
        ensures
            entries.deep_view() == self@.entries,
    {
        &self.entries
    }

    /// The nonce of each federated login that is under way.
    pub fn nonces(&self) -> (nonces: &Vec<NonceRecord>)
        ensures
            nonces.deep_view() == self@.nonces,
    {
        &self.nonces
    }

    fn find_nonce(&self, state: &str) -> (r: Option<usize>)
        requires
            db_wf(self@),
        ensures
            r == match nonce_position(self@.nonces, state@) {
                Some(i) => Some(i as usize),
                None => None,
            },
            r matches Some(i) ==> i < self.nonces.len(),
    {
        let ghost nonces = self@.nonces;
        let mut i: usize = 0;
        while i < self.nonces.len()
            invariant
                i <= self.nonces.len(),
                nonces == self.nonces.deep_view(),
                distinct_states(nonces),
                forall|k: int| 0 <= k < i ==> (#[trigger] nonces[k]).state != state@,
            decreases self.nonces.len() - i,
        {
            if same_text(self.nonces[i].state.as_str(), state) {
                proof {
                    assert(nonces[i as int].state == state@);
                    let j = choose|j: int| 0 <= j < nonces.len() && (#[trigger] nonces[j]).state == state@;
                    assert(j == i);
                }
                return Some(i);
            }
            i += 1;
        }
        None
    }

    /// Keeps `nonce` for the federated login that was started with `state`,
    /// in place of any nonce kept under that state before.
    pub fn store_nonce_by_csrf(&mut self, state: &str, nonce: String)
        requires
            db_wf(old(self)@),
        ensures
            db_wf(final(self)@),
            final(self)@ == with_nonce(old(self)@, state@, nonce@),
    {
        let ghost before = self@.nonces;
        match self.find_nonce(state) {
            Some(i) => {
                self.nonces.set(i, NonceRecord { state: state.to_owned(), nonce });
            },
            None => {
                self.nonces.push(NonceRecord { state: state.to_owned(), nonce });
            },
        }
        proof {
            let after = self.nonces.deep_view();
            assert(after =~= with_nonce(old(self)@, state@, nonce@).nonces);
            let at = match nonce_position(before, state@) {
                Some(i) => i,
                None => before.len() as int,
            };
            assert forall|a: int, b: int|
                0 <= a < after.len() && 0 <= b < after.len() && a != b implies (#[trigger] after[a]).state
                != (#[trigger] after[b]).state by {
                if a != at && b != at {
                    assert(before[a].state != before[b].state);
                } else if a == at && b < before.len() {
                    assert(before[b].state != state@ || nonce_position(before, state@) is Some);
                } else if b == at && a < before.len() {
                    assert(before[a].state != state@ || nonce_position(before, state@) is Some);
                }
            }
        }
    }

    /// Takes the nonce kept for the federated login that was started with
    /// `state`: the store hands it out once and keeps it no longer.
    pub fn get_nonce_by_csrf(&mut self, state: &str) -> (r: Result<String, Error>)
        requires
            db_wf(old(self)@),
        ensures
            db_wf(final(self)@),
            match nonce_taken(old(self)@, state@) {
                Ok((nonce, db)) => r matches Ok(n) && n@ == nonce && final(self)@ == db,
                Err(e) => failed_with(r, e) && final(self)@ == old(self)@,
            },
    {
        let ghost before = self@.nonces;
        match self.find_nonce(state) {
            None => Err(Error::InvalidCsrfToken(state.to_owned())),
            Some(i) => {
                let record = self.nonces.remove(i);
                proof {
                    let after = self.nonces.deep_view();
                    assert(after =~= before.remove(i as int));
                    assert forall|a: int, b: int|
                        0 <= a < after.len() && 0 <= b < after.len() && a != b implies (
                    #[trigger] after[a]).state != (#[trigger] after[b]).state by {
                        let x = if a < i {
                            a
                        } else {
                            a + 1
                        };
                        let y = if b < i {
                            b
                        } else {
                            b + 1
                        };
                        assert(before[x].state != before[y].state);
                    }
                }
                Ok(record.nonce)
            },
        }
    }

    /// The greatest id among the users who hold a token; `None` where no
    /// token was given yet.
    pub fn last_user_id(&self) -> (r: Option<u32>)
        ensures
            r == greatest_id(self@.tokens),
    {
        let ghost tokens = self@.tokens;
        if self.tokens.len() == 0 {
            return None;
        }
        let mut best: u32 = self.tokens[0].user_id;
        let mut i: usize = 1;
        assert(tokens[0].user_id == best);
        while i < self.tokens.len()
            invariant
                1 <= i <= self.tokens.len(),
                tokens == self.tokens.deep_view(),
                exists|k: int| 0 <= k < i && (#[trigger] tokens[k]).user_id == best,
                forall|k: int| 0 <= k < i ==> (#[trigger] tokens[k]).user_id <= best,
            decreases self.tokens.len() - i,
        {
            if self.tokens[i].user_id > best {
                best = self.tokens[i].user_id;
                assert(tokens[i as int].user_id == best);
            }
            i += 1;
        }
        proof {
            assert(is_greatest_id(tokens, best));
            let chosen = choose|id: u32| is_greatest_id(tokens, id);
            assert(chosen == best);
        }
        Some(best)
    }

    /// The id of the user whom `token` authenticates.
    pub fn user_id_for_token(&self, token: &str) -> (r: Result<u32, Error>)
        ensures
            match token_holder(self@.tokens, token@) {
                Some(id) => r == Ok::<u32, Error>(id),
                None => r matches Err(e) && e@ == ErrorView::InvalidToken(token@),
            },
    {
        let ghost tokens = self@.tokens;
        let mut i: usize = 0;
        while i < self.tokens.len()
            invariant
                i <= self.tokens.len(),
                tokens == self.tokens.deep_view(),
                forall|k: int| 0 <= k < i ==> (#[trigger] tokens[k]).text != token@,
            decreases self.tokens.len() - i,
        {
            if same_text(self.tokens[i].text.as_str(), token) {
                proof {
                    assert(first_holder_at(tokens, token@, i as int));
                    let j = choose|j: int| first_holder_at(tokens, token@, j);
                    assert(j == i);
                }
                return Ok(self.tokens[i].user_id);
            }
            i += 1;
        }
        Err(Error::InvalidToken(token.to_owned()))
    }

    /// Makes `token` the one token of the user `user_id`.
    pub fn set_token(&mut self, user_id: u32, token: &str)
        requires
            db_wf(old(self)@),
        ensures
            final(self)@ == with_token(old(self)@, user_id, token@),
            db_wf(final(self)@),
    {
        store_secret(&mut self.tokens, user_id, token.to_owned());
    }

    /// The user with the login `login`.
    pub fn user_by_login(&self, login: &str) -> (r: Result<User, Error>)
        requires
            db_wf(self@),
        ensures
            match user_of_login(self@.users, login@) {
                Some(user) => r matches Ok(u) && u@ == user,
                None => r matches Err(e) && e@ == ErrorView::InvalidLogin(login@),
            },
    {
        match self.find_user(login) {
            Some(i) => Ok(self.users[i].clone()),
            None => Err(Error::InvalidLogin(login.to_owned())),
        }
    }

    /// The user who registered under `name`.
    pub fn user_by_username(&self, name: &str) -> (r: Result<User, Error>)
        requires
            db_wf(self@),
        ensures
            match user_of_login(self@.users, login_of_name(self@, name@)) {
                Some(user) => r matches Ok(u) && u@ == user,
                None => r matches Err(e) && e@ == ErrorView::InvalidUsername(name@),
            },
    {
        let login = self.login_for(name);
        match self.find_user(login.as_str()) {
            Some(i) => Ok(self.users[i].clone()),
            None => Err(Error::InvalidUsername(name.to_owned())),
        }
    }

    /// The login of the user who registers under `name`.
    pub fn login_for(&self, name: &str) -> (login: String)
        ensures
            login@ == login_of_name(self@, name@),
    {
        let mut login = self.login_prefix.clone();
        login.append(name);
        login
    }

    /// The token of the user with the login `login`; `None` where there is no
    /// such user, or the user has no token.
    pub fn token_by_login(&self, login: &str) -> (r: Option<String>)
        requires
            db_wf(self@),
        ensures
            r.deep_view() == token_of_login(self@, login@),
    {
        match self.find_user(login) {
            Some(i) => match find_secret(&self.tokens, self.users[i].id) {
                Some(t) => Some(self.tokens[t].text.clone()),
                None => None,
            },
            None => None,
        }
    }

    /// The token of the user who registered under `name`; `None` where there
    /// is no such user, or the user has no token.
    pub fn token_by_username(&self, name: &str) -> (r: Option<String>)
        requires
            db_wf(self@),
        ensures
            r.deep_view() == token_of_login(self@, login_of_name(self@, name@)),
    {
        let login = self.login_for(name);
        self.token_by_login(login.as_str())
    }

    fn find_entry(&self, key: &str) -> (r: Option<usize>)
        requires
            db_wf(self@),
        ensures
            r == match entry_position(self@.entries, key@) {
                Some(i) => Some(i as usize),
                None => None,
            },
            r matches Some(i) ==> i < self.entries.len() && self.entries[i as int].name@ == key@
                && self.entries[i as int].entry@ == entry_of(self@.entries, key@),
            r is None ==> entry_of(self@.entries, key@) == empty_entry(),
    {
        let ghost entries = self@.entries;
        let mut i: usize = 0;
        while i < self.entries.len()
            invariant
                i <= self.entries.len(),
                entries == self.entries.deep_view(),
                distinct_names(entries),
                forall|k: int| 0 <= k < i ==> (#[trigger] entries[k]).name != key@,
            decreases self.entries.len() - i,
        {
            if same_text(self.entries[i].name.as_str(), key) {
                proof {
                    assert(entries[i as int].name == key@);
                    let j = choose|j: int| 0 <= j < entries.len() && (#[trigger] entries[j]).name == key@;
                    assert(j == i);
                }
                return Some(i);
            }
            i += 1;
        }
        None
    }

    /// Whether the user `user_id` may change the owners of the crate `name`.
    pub fn can_edit_owners(&self, user_id: u32, name: &str) -> (r: Result<bool, Error>)
        requires
            db_wf(self@),
        ensures
            outcome(r) == may_edit_owners(self@, user_id, name@),
    {
        match check_crate_name(name) {
            Err(e) => {
                return Err(e);
            },
            Ok(()) => {},
        }
        let key = normalized_crate_name(name);
        match self.find_entry(key.as_str()) {
            None => Err(Error::CrateNotFoundInDb(name.to_owned())),
            Some(i) => {
                let entry = &self.entries[i].entry;
                if entry.is_empty() {
                    Err(Error::CrateNotFoundInDb(name.to_owned()))
                } else if !entry.is_owner(user_id) {
                    Err(Error::InvalidUser(user_id))
                } else {
                    Ok(true)
                }
            },
        }
    }

    /// Whether the user `user_id` may publish `version` of the crate `name`.
    pub fn can_add_metadata(
        &self,
        user_id: u32,
        name: &str,
        version: &Version,
    ) -> (r: Result<bool, Error>)
        requires
            db_wf(self@),
        ensures
            outcome(r) == may_add_metadata(self@, user_id, name@, version@),
    {
        match check_crate_name(name) {
            Err(e) => {
                return Err(e);
            },
            Ok(()) => {},
        }
        let key = normalized_crate_name(name);
        match self.find_entry(key.as_str()) {
            None => Ok(true),
            Some(i) => {
                let entry = &self.entries[i].entry;
                assert(entry_wf(self@.entries[i as int].entry));
                if entry.is_empty() {
                    Ok(true)
                } else if !entry.is_owner(user_id) {
                    Err(Error::InvalidUser(user_id))
                } else if entry.position(version).is_some() {
                    Err(Error::VersionExists(name.to_owned(), version.clone()))
                } else {
                    match newest_index(&entry.versions, true) {
                        Some(j) => Ok(same_text(entry.versions[j].name.as_str(), name)),
                        None => Ok(false),
                    }
                }
            },
        }
    }

    /// Whether the user `user_id` may yank or unyank `version` of the crate
    /// `name`.
    pub fn can_edit_package(
        &self,
        user_id: u32,
        name: &str,
        version: &Version,
    ) -> (r: Result<bool, Error>)
        requires
            db_wf(self@),
        ensures
            outcome(r) == may_edit_package(self@, user_id, name@, version@),
    {
        match check_crate_name(name) {
            Err(e) => {
                return Err(e);
            },
            Ok(()) => {},
        }
        let key = normalized_crate_name(name);
        match self.find_entry(key.as_str()) {
            None => Err(Error::CrateNotFoundInDb(name.to_owned())),
            Some(i) => {
                let entry = &self.entries[i].entry;
                assert(entry_wf(self@.entries[i as int].entry));
                if entry.is_empty() {
                    Err(Error::CrateNotFoundInDb(name.to_owned()))
                } else if !entry.is_owner(user_id) {
                    Err(Error::InvalidUser(user_id))
                } else {
                    match entry.position(version) {
                        Some(j) => Ok(same_text(entry.versions[j].name.as_str(), name)),
                        None => Err(Error::VersionNotFoundInDb(version.clone())),
                    }
                }
            },
        }
    }

    /// Records that the user `owner_id` published `metadata`.
    pub fn add_new_metadata(&mut self, owner_id: u32, metadata: Metadata) -> (r: Result<(), Error>)
        requires
            db_wf(old(self)@),
        ensures
            db_wf(final(self)@),
            match with_metadata(old(self)@, owner_id, metadata@) {
                Ok(db) => r is Ok && final(self)@ == db,
                Err(e) => r matches Err(x) && x@ == e && final(self)@ == old(self)@,
            },
    {
        let ghost before = self@;
        let ghost added = metadata@;
        let key = normalized_crate_name(metadata.name.as_str());
        match self.find_entry(key.as_str()) {
            None => {
                let mut versions: Vec<Metadata> = Vec::new();
                versions.push(metadata);
                let mut owner_ids: Vec<u32> = Vec::new();
                owner_ids.push(owner_id);
                let entry = Entry { versions, owner_ids };
                proof {
                    assert(entry@.versions =~= put_version(Seq::empty(), added));
                    assert(entry@.owner_ids =~= seq![owner_id]);
                    assert(seq![owner_id].contains(owner_id)) by {
                        assert(seq![owner_id][0] == owner_id);
                    }
                }
                self.entries.push(EntryRecord { name: key, entry });
                proof {
                    assert(self@.entries =~= put_entry(before.entries, key@, entry@));
                }
                Ok(())
            },
            Some(i) => {
                let ghost entry = before.entries[i as int].entry;
                assert(entry_wf(entry));
                if self.entries[i].entry.is_empty() {
                    self.entries[i].entry.owner_ids.push(owner_id);
                    proof {
                        assert(self.entries[i as int].entry@.owner_ids =~= seq![owner_id]);
                        assert(seq![owner_id].contains(owner_id)) by {
                            assert(seq![owner_id][0] == owner_id);
                        }
                    }
                } else if !self.entries[i].entry.is_owner(owner_id) {
                    return Err(Error::InvalidUser(owner_id));
                }
                let ghost owner_ids = self.entries[i as int].entry@.owner_ids;
                assert(self.entries[i as int].entry@.versions == entry.versions);
                match self.entries[i].entry.position(&metadata.vers) {
                    Some(j) => {
                        self.entries[i].entry.versions.set(j, metadata);
                    },
                    None => {
                        self.entries[i].entry.versions.push(metadata);
                    },
                }
                proof {
                    let after = EntryView { versions: put_version(entry.versions, added), owner_ids };
                    assert(self.entries[i as int].entry@.versions =~= after.versions);
                    assert(self.entries[i as int].entry@ == after);
                    assert(self@.entries =~= put_entry(before.entries, key@, after));
                }
                Ok(())
            },
        }
    }

    /// Marks `version` of the crate `name` as yanked.
    pub fn yank(&mut self, name: &str, version: &Version) -> (r: Result<(), Error>)
        requires
            db_wf(old(self)@),
        ensures
            db_wf(final(self)@),
            match with_yanked(old(self)@, name@, version@, true) {
                Ok(db) => r is Ok && final(self)@ == db,
                Err(e) => r matches Err(x) && x@ == e && final(self)@ == old(self)@,
            },
    {
        self.change_yanked(name, version, true)
    }

    /// Marks `version` of the crate `name` as not yanked.
    pub fn unyank(&mut self, name: &str, version: &Version) -> (r: Result<(), Error>)
        requires
            db_wf(old(self)@),
        ensures
            db_wf(final(self)@),
            match with_yanked(old(self)@, name@, version@, false) {
                Ok(db) => r is Ok && final(self)@ == db,
                Err(e) => r matches Err(x) && x@ == e && final(self)@ == old(self)@,
            },
    {
        self.change_yanked(name, version, false)
    }

    fn change_yanked(
        &mut self,
        name: &str,
        version: &Version,
        yanked: bool,
    ) -> (r: Result<(), Error>)
        requires
            db_wf(old(self)@),
        ensures
            db_wf(final(self)@),
            match with_yanked(old(self)@, name@, version@, yanked) {
                Ok(db) => r is Ok && final(self)@ == db,
                Err(e) => r matches Err(x) && x@ == e && final(self)@ == old(self)@,
            },
    {
        let ghost before = self@;
        let key = normalized_crate_name(name);
        match self.find_entry(key.as_str()) {
            None => {
                assert(version_position(empty_entry().versions, version@) is None);
                Err(Error::VersionNotFoundInDb(version.clone()))
            },
            Some(i) => {
                let ghost entry = before.entries[i as int].entry;
                assert(entry_wf(entry));
                match self.entries[i].entry.position(version) {
                    None => Err(Error::VersionNotFoundInDb(version.clone())),
                    Some(j) => {
                        if self.entries[i].entry.versions[j].yanked == yanked {
                            if yanked {
                                Err(Error::AlreadyYanked(name.to_owned(), version.clone()))
                            } else {
                                Err(Error::NotYetYanked(name.to_owned(), version.clone()))
                            }
                        } else {
                            self.entries[i].entry.versions[j].yanked = yanked;
                            proof {
                                let after = EntryView {
                                    versions: entry.versions.update(
                                        j as int,
                                        MetadataView { yanked, ..entry.versions[j as int] },
                                    ),
                                    ..entry
                                };
                                assert(self.entries[i as int].entry@.versions =~= after.versions);
                                assert(self.entries[i as int].entry@ == after);
                                assert(self@.entries =~= put_entry(before.entries, key@, after));
                            }
                            Ok(())
                        }
                    },
                }
            },
        }
    }

    /// The users who own the crate `name`, in ascending order of their ids.
    pub fn owners(&self, name: &str) -> (owners: Vec<User>)
        requires
            db_wf(self@),
        ensures
            owners.deep_view() == owners_among(self@.users, entry_named(self@, name@).owner_ids),
    {
        let key = normalized_crate_name(name);
        let mut owners: Vec<User> = Vec::new();
        let ghost users = self@.users;
        let ghost ids = entry_named(self@, name@).owner_ids;
        match self.find_entry(key.as_str()) {
            None => {
                proof {
                    lemma_no_owners(users);
                    assert(owners.deep_view() =~= owners_among(users, ids));
                }
            },
            Some(e) => {
                let entry = &self.entries[e].entry;
                let mut i: usize = 0;
                assert(users.take(0) =~= Seq::empty());
                assert(owners.deep_view() =~= owners_among(users.take(0), ids));
                while i < self.users.len()
                    invariant
                        i <= self.users.len(),
                        users == self.users.deep_view(),
                        ids == entry.owner_ids@,
                        owners.deep_view() == owners_among(users.take(i as int), ids),
                    decreases self.users.len() - i,
                {
                    let ghost so_far = owners.deep_view();
                    assert(users.take(i + 1).drop_last() == users.take(i as int));
                    if has_id(&entry.owner_ids, self.users[i].id) {
                        owners.push(self.users[i].clone());
                        assert(owners.deep_view() =~= so_far.push(users[i as int]));
                    }
                    i += 1;
                }
                assert(users.take(i as int) == users);
            },
        }
        owners
    }

    /// Makes the users with the logins `logins` owners of the crate `name`,
    /// beside those it has. Where a login is nobody's, nothing changes and
    /// the logins that are nobody's are reported.
    pub fn add_owners(&mut self, name: &str, logins: &Vec<String>) -> (r: Result<(), Error>)
        requires
            db_wf(old(self)@),
        ensures
            db_wf(final(self)@),
            missing_logins(old(self)@.users, logins.deep_view()).len() > 0 ==> {
                &&& final(self)@ == old(self)@
                &&& r matches Err(e)
                &&& e@ == ErrorView::InvalidLoginNames(
                    missing_logins(old(self)@.users, logins.deep_view()),
                )
            },
            missing_logins(old(self)@.users, logins.deep_view()).len() == 0 ==> r is Ok
                && owners_merged(old(self)@, final(self)@, name@, logins.deep_view()),
    {
        let ghost before = self@;
        let ids = match self.resolve_logins(logins) {
            Ok(ids) => ids,
            Err(e) => {
                return Err(e);
            },
        };
        let key = normalized_crate_name(name);
        match self.find_entry(key.as_str()) {
            None => {
                let mut owner_ids: Vec<u32> = Vec::new();
                merge_ids(&mut owner_ids, &ids);
                let entry = Entry { versions: Vec::new(), owner_ids };
                proof {
                    assert(entry@.versions =~= empty_entry().versions);
                }
                self.entries.push(EntryRecord { name: key, entry });
                proof {
                    let after = EntryView { owner_ids: entry@.owner_ids, ..empty_entry() };
                    assert(self@.entries =~= put_entry(before.entries, key@, after));
                    lemma_entry_put(before.entries, key@, after);
                }
            },
            Some(i) => {
                let ghost entry = before.entries[i as int].entry;
                assert(entry_wf(entry));
                merge_ids(&mut self.entries[i].entry.owner_ids, &ids);
                proof {
                    let after = EntryView {
                        owner_ids: self.entries[i as int].entry@.owner_ids,
                        ..entry
                    };
                    assert(self.entries[i as int].entry@ == after);
                    assert(self@.entries =~= put_entry(before.entries, key@, after));
                    lemma_entry_put(before.entries, key@, after);
                }
            },
        }
        Ok(())
    }

    /// Takes the ownership of the crate `name` from the users with the
    /// logins `logins`. Where a login is nobody's, nothing changes and the
    /// logins that are nobody's are reported.
    pub fn remove_owners(&mut self, name: &str, logins: &Vec<String>) -> (r: Result<(), Error>)
        requires
            db_wf(old(self)@),
        ensures
            db_wf(final(self)@),
            missing_logins(old(self)@.users, logins.deep_view()).len() > 0 ==> {
                &&& final(self)@ == old(self)@
                &&& r matches Err(e)
                &&& e@ == ErrorView::InvalidLoginNames(
                    missing_logins(old(self)@.users, logins.deep_view()),
                )
            },
            missing_logins(old(self)@.users, logins.deep_view()).len() == 0 ==> {
                &&& r is Ok
                &&& final(self)@ == with_owners_removed(old(self)@, name@, logins.deep_view())
            },
    {
        let ghost before = self@;
        let ids = match self.resolve_logins(logins) {
            Ok(ids) => ids,
            Err(e) => {
                return Err(e);
            },
        };
        let key = normalized_crate_name(name);
        match self.find_entry(key.as_str()) {
            None => {
                let entry = Entry { versions: Vec::new(), owner_ids: Vec::new() };
                proof {
                    assert(entry@.versions =~= empty_entry().versions);
                    assert(entry@.owner_ids =~= without_ids(empty_entry().owner_ids, ids@));
                }
                self.entries.push(EntryRecord { name: key, entry });
                proof {
                    assert(self@.entries =~= put_entry(before.entries, key@, empty_entry()));
                }
            },
            Some(i) => {
                let ghost entry = before.entries[i as int].entry;
                assert(entry_wf(entry));
                let kept = retain_ids(&self.entries[i].entry.owner_ids, &ids);
                self.entries[i].entry.owner_ids = kept;
                proof {
                    lemma_without_ids(entry.owner_ids, ids@);
                    let after = EntryView { owner_ids: without_ids(entry.owner_ids, ids@), ..entry };
                    assert(self.entries[i as int].entry@ == after);
                    assert(self@.entries =~= put_entry(before.entries, key@, after));
                }
            },
        }
        Ok(())
    }

    fn resolve_logins(&self, logins: &Vec<String>) -> (r: Result<Vec<u32>, Error>)
        requires
            db_wf(self@),
        ensures
            missing_logins(self@.users, logins.deep_view()).len() > 0 ==> (r matches Err(e) && e@
                == ErrorView::InvalidLoginNames(missing_logins(self@.users, logins.deep_view()))),
            missing_logins(self@.users, logins.deep_view()).len() == 0 ==> (r matches Ok(ids) && ids@
                == ids_of_logins(self@.users, logins.deep_view())),
    {
        let ghost users = self@.users;
        let ghost wanted = logins.deep_view();
        let mut ids: Vec<u32> = Vec::new();
        let mut missing: Vec<String> = Vec::new();
        let mut i: usize = 0;
        assert(wanted.take(0) =~= Seq::empty());
        assert(missing.deep_view() =~= missing_logins(users, wanted.take(0)));
        assert(ids@ =~= ids_of_logins(users, wanted.take(0)));
        while i < logins.len()
            invariant
                i <= logins.len(),
                db_wf(self@),
                users == self@.users,
                wanted == logins.deep_view(),
                missing.deep_view() == missing_logins(users, wanted.take(i as int)),
                ids@ == ids_of_logins(users, wanted.take(i as int)),
            decreases logins.len() - i,
        {
            let ghost missing_so_far = missing.deep_view();
            assert(wanted.take(i + 1).drop_last() == wanted.take(i as int));
            assert(wanted.take(i + 1).last() == logins[i as int]@);
            match self.find_user(logins[i].as_str()) {
                Some(u) => {
                    ids.push(self.users[u].id);
                },
                None => {
                    missing.push(logins[i].clone());
                    assert(missing.deep_view() =~= missing_so_far.push(logins[i as int]@));
                },
            }
            i += 1;
        }
        assert(wanted.take(i as int) == wanted);
        if missing.len() == 0 {
            Ok(ids)
        } else {
            Err(Error::InvalidLoginNames(missing))
        }
    }

    /// Registers `user` with `password`, hashed under a fresh random salt.
    pub fn add_new_user(&mut self, user: User, password: &str) -> (r: Result<(), Error>)
        requires
            db_wf(old(self)@),
        ensures
            db_wf(final(self)@),
            exists|salt: Seq<char>|
                is_secret(salt, SECRET_LEN as nat) && user_added(
                    old(self)@,
                    final(self)@,
                    r,
                    user@,
                    password@,
                    salt,
                ),
    {
        let salt = random_alphanumeric_string(SECRET_LEN);
        let ghost before = self@;
        let ghost view = user@;
        let r = self.add_new_user_with_salt(user, password, salt.as_str());
        assert(is_secret(salt@, SECRET_LEN as nat) && user_added(
            before,
            self@,
            r,
            view,
            password@,
            salt@,
        ));
        r
    }

    /// Registers `user` with `password`, hashed under `salt`.
    pub fn add_new_user_with_salt(
        &mut self,
        user: User,
        password: &str,
        salt: &str,
    ) -> (r: Result<(), Error>)
        requires
            db_wf(old(self)@),
        ensures
            db_wf(final(self)@),
            user_added(old(self)@, final(self)@, r, user@, password@, salt@),
    {
        let ghost before = self@;
        let ghost added = user@;
        if self.find_user(user.login.as_str()).is_some() {
            return Err(Error::UserExists(user.login));
        }
        let encoded = match encode_password(password, salt) {
            Ok(encoded) => encoded,
            Err(message) => {
                return Err(Error::Argon2(message));
            },
        };
        let id = user.id;
        let mut p: usize = 0;
        while p < self.users.len() && self.users[p].id <= id
            invariant
                p <= self.users.len(),
                self@ == before,
                forall|j: int| 0 <= j < p ==> (#[trigger] before.users[j]).id <= id,
            decreases self.users.len() - p,
        {
            p += 1;
        }
        proof {
            assert(is_place(before.users, id, p as int)) by {
                assert forall|j: int| p <= j < before.users.len() implies (
                #[trigger] before.users[j]).id > id by {
                    if j > p {
                        assert(before.users[p as int].id <= before.users[j].id);
                    }
                }
            }
            let chosen = place_of(before.users, id);
            assert(chosen == p) by {
                if chosen < p {
                    assert(before.users[chosen].id > id);
                } else if chosen > p {
                    assert(before.users[p as int].id <= id);
                }
            }
        }
        self.users.insert(p, user);
        store_secret(&mut self.passwords, id, encoded);
        proof {
            let after = self@.users;
            assert(after =~= before.users.insert(p as int, added));
            assert forall|j: int| 0 <= j < after.len() implies #[trigger] after[j] == (if j < p {
                before.users[j]
            } else if j == p {
                added
            } else {
                before.users[j - 1]
            }) by {}
            assert(distinct_logins(after)) by {
                assert forall|a: int, b: int|
                    0 <= a < after.len() && 0 <= b < after.len() && a != b implies (
                #[trigger] after[a]).login != (#[trigger] after[b]).login by {
                    let x = if a < p {
                        a
                    } else {
                        a - 1
                    };
                    let y = if b < p {
                        b
                    } else {
                        b - 1
                    };
                    if a != p && b != p {
                        assert(before.users[x].login != before.users[y].login);
                    } else if a == p {
                        assert(before.users[y].login != added.login);
                    } else {
                        assert(before.users[x].login != added.login);
                    }
                }
            }
            assert(ordered_by_id(after)) by {
                assert forall|a: int, b: int| 0 <= a < b < after.len() implies (#[trigger] after[a]).id
                    <= (#[trigger] after[b]).id by {
                    if a < p && b > p {
                        assert(before.users[a].id <= id);
                        assert(before.users[b - 1].id > id);
                    } else if a < p && b < p {
                        assert(before.users[a].id <= before.users[b].id);
                    } else if a > p {
                        assert(before.users[a - 1].id <= before.users[b - 1].id);
                    } else if a == p {
                        assert(before.users[b - 1].id > id);
                    } else {
                        assert(before.users[a].id <= id);
                    }
                }
            }
        }
        Ok(())
    }

    /// Whether `password` is the password of the user `user_id`.
    pub fn verify_password(&self, user_id: u32, password: &str) -> (r: Result<bool, Error>)
        requires
            db_wf(self@),
        ensures
            password_checked(self@, user_id, password@, r),
            r == Ok::<bool, Error>(true) <==> password_accepted(self@, user_id, password@),
    {
        match find_secret(&self.passwords, user_id) {
            None => Err(Error::InvalidUser(user_id)),
            Some(i) => match matches_password(self.passwords[i].text.as_str(), password) {
                Ok(matches) => Ok(matches),
                Err(message) => Err(Error::Argon2(message)),
            },
        }
    }

    /// Replaces the password of the user `user_id`, hashing the new one
    /// under a fresh random salt.
    pub fn change_password(
        &mut self,
        user_id: u32,
        old_password: &str,
        new_password: &str,
    ) -> (r: Result<(), Error>)
        requires
            db_wf(old(self)@),
        ensures
            db_wf(final(self)@),
            exists|salt: Seq<char>|
                is_secret(salt, SECRET_LEN as nat) && password_changed(
                    old(self)@,
                    final(self)@,
                    r,
                    user_id,
                    old_password@,
                    new_password@,
                    salt,
                ),
            r is Ok ==> password_accepted(final(self)@, user_id, new_password@),
    {
        let salt = random_alphanumeric_string(SECRET_LEN);
        let ghost before = self@;
        let r = self.change_password_with_salt(user_id, old_password, new_password, salt.as_str());
        assert(is_secret(salt@, SECRET_LEN as nat) && password_changed(
            before,
            self@,
            r,
            user_id,
            old_password@,
            new_password@,
            salt@,
        ));
        r
    }

    /// Replaces the password of the user `user_id`, hashing the new one
    /// under `salt`.
    pub fn change_password_with_salt(
        &mut self,
        user_id: u32,
        old_password: &str,
        new_password: &str,
        salt: &str,
    ) -> (r: Result<(), Error>)
        requires
            db_wf(old(self)@),
        ensures
            db_wf(final(self)@),
            password_changed(
                old(self)@,
                final(self)@,
                r,
                user_id,
                old_password@,
                new_password@,
                salt@,
            ),
            r is Ok ==> password_accepted(final(self)@, user_id, new_password@),
    {
        let ghost before = self@;
        if same_text(old_password, new_password) {
            return Err(Error::SamePasswords);
        }
        let i = match find_secret(&self.passwords, user_id) {
            Some(i) => i,
            None => {
                return Err(Error::InvalidUser(user_id));
            },
        };
        match matches_password(self.passwords[i].text.as_str(), old_password) {
            Err(message) => {
                return Err(Error::Argon2(message));
            },
            Ok(false) => {
                return Err(Error::InvalidPassword);
            },
            Ok(true) => {},
        }
        let encoded = match encode_password(new_password, salt) {
            Ok(encoded) => encoded,
            Err(message) => {
                return Err(Error::Argon2(message));
            },
        };
        let ghost text = encoded@;
        store_secret(&mut self.passwords, user_id, encoded);
        proof {
            lemma_secret_put(before.passwords, user_id, text);
        }
        Ok(())
    }

    /// Finds the crates whose normalized name holds the normalized text of
    /// `query`, and shows of each the newest version that is not yanked:
    /// as many rows as `query` asks for, and the number of all that matched.
    pub fn search(&self, query: &Query) -> (found: Search)
        requires
            db_wf(self@),
        ensures
            search_answer(
                self@,
                query.string@,
                query.limit,
                found.crates.deep_view(),
                found.meta.total,
            ),
    {
        let needle_text = normalized_crate_name(query.string.as_str());
        let needle = chars_of(needle_text.as_str());
        let ghost entries = self@.entries;
        let mut crates: Vec<SearchedMetadata> = Vec::new();
        let mut total: usize = 0;
        let mut i: usize = 0;
        assert(entries.take(0) =~= Seq::empty());
        assert(crates.deep_view() =~= first_rows(found_rows(entries.take(0), needle@), query.limit));
        while i < self.entries.len()
            invariant
                i <= self.entries.len(),
                db_wf(self@),
                entries == self.entries.deep_view(),
                total == found_rows(entries.take(i as int), needle@).len(),
                total <= i,
                forall|k: int|
                    0 <= k < i && contains_text((#[trigger] entries[k]).name, needle@) && has_unyanked(
                        entries[k].entry,
                    ) ==> row_of(entries[k].entry) is Some,
                crates.deep_view() == first_rows(
                    found_rows(entries.take(i as int), needle@),
                    query.limit,
                ),
            decreases self.entries.len() - i,
        {
            let ghost rows = found_rows(entries.take(i as int), needle@);
            let ghost shown = crates.deep_view();
            assert(entries.take(i + 1).drop_last() == entries.take(i as int));
            assert(entries.take(i + 1).last() == entries[i as int]);
            let record = &self.entries[i];
            assert(entry_wf(entries[i as int].entry));
            let name = chars_of(record.name.as_str());
            if contains_chars(&name, &needle) {
                match newest_index(&record.entry.versions, false) {
                    Some(j) => {
                        if total < query.limit {
                            crates.push(record.entry.versions[j].to_searched());
                            assert(crates.deep_view() =~= shown.push(
                                search_row(entries[i as int].entry.versions[j as int]),
                            ));
                        }
                        total += 1;
                        assert(crates.deep_view() =~= first_rows(
                            rows.push(search_row(entries[i as int].entry.versions[j as int])),
                            query.limit,
                        ));
                    },
                    None => {
                        assert(!has_unyanked(entries[i as int].entry));
                    },
                }
            }
            i += 1;
        }
        assert(entries.take(i as int) == entries);
        Search::new(crates, total)
    }

    /// The store that holds the given users, password hashes, tokens and
    /// entries, where these make up a state that the store can be in.
    pub fn from_parts(
        login_prefix: String,
        users: Vec<User>,
        passwords: Vec<Secret>,
        tokens: Vec<Secret>,
        entries: Vec<EntryRecord>,
        nonces: Vec<NonceRecord>,
    ) -> (r: Option<DbManager>)
        ensures
            r is Some <==> db_wf(
                DbView {
                    login_prefix: login_prefix@,
                    users: users.deep_view(),
                    passwords: passwords.deep_view(),
                    tokens: tokens.deep_view(),
                    entries: entries.deep_view(),
                    nonces: nonces.deep_view(),
                },
            ),
            r matches Some(db) ==> db@ == (DbView {
                login_prefix: login_prefix@,
                users: users.deep_view(),
                passwords: passwords.deep_view(),
                tokens: tokens.deep_view(),
                entries: entries.deep_view(),
                nonces: nonces.deep_view(),
            }),
    {
        if users_distinct(&users) && users_ordered(&users) && ids_distinct(&passwords) && ids_distinct(
            &tokens,
        ) && names_distinct(&entries) && entries_wf(&entries) && states_distinct(&nonces) {
            Some(DbManager { login_prefix, users, passwords, tokens, entries, nonces })
        } else {
            None
        }
    }

    fn find_user(&self, login: &str) -> (r: Option<usize>)
        requires
            db_wf(self@),
        ensures
            r == match user_position(self@.users, login@) {
                Some(i) => Some(i as usize),
                None => None,
            },
            r matches Some(i) ==> i < self.users.len() && self.users[i as int].login@ == login@,
    {
        let ghost users = self@.users;
        let mut i: usize = 0;
        while i < self.users.len()
            invariant
                i <= self.users.len(),
                users == self.users.deep_view(),
                distinct_logins(users),
                forall|k: int| 0 <= k < i ==> (#[trigger] users[k]).login != login@,
            decreases self.users.len() - i,
        {
            if same_text(self.users[i].login.as_str(), login) {
                proof {
                    assert(users[i as int].login == login@);
                    let j = choose|j: int| 0 <= j < users.len() && (#[trigger] users[j]).login == login@;
                    assert(j == i);
                }
                return Some(i);
            }
            i += 1;
        }
        None
    }
}

} // verus!
