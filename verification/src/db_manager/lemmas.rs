//! What follows from the contracts of the store's operations.

use crate::db_manager::model::{
    db_wf, entry_named, entry_of, entry_position, first_holder_at, found_rows, has_unyanked,
    lemma_entry_put, lemma_secret_put, may_add_metadata, password_accepted, password_changed,
    put_entry, put_secret, put_version, row_of, search_answer, search_rows, secret_of,
    secret_position, token_holder, with_metadata, with_token, with_yanked, DbView, EntryRecordView,
    SecretView,
};
use crate::error::Error;
use crate::models::{
    counts, distinct_versions, entry_is_empty, entry_wf, lemma_newest_unique, newest_at,
    newest_position, search_row, version_position, EntryView, MetadataView, SearchedMetadataView,
};
use crate::names::{lemma_normalize_idempotent, normal_name, valid_name};
use crate::text::{contains_text, stands_at};
use crate::version::version_lt;
use vstd::prelude::*;

verus! {

/// Once a user was given a token, that token is the user's token and no
/// other text authenticates as that user. The token authenticates as the
/// user unless another user who stands earlier holds the very same token.
pub proof fn lemma_latest_token(db: DbView, id: u32, token: Seq<char>)
    requires
        db_wf(db),
    ensures
        db_wf(with_token(db, id, token)),
        secret_of(with_token(db, id, token).tokens, id) == Some(token),
        forall|other: Seq<char>|
            other != token ==> token_holder(with_token(db, id, token).tokens, other) != Some(id),
        (forall|i: int| 0 <= i < db.tokens.len() && (#[trigger] db.tokens[i]).user_id != id
            ==> db.tokens[i].text != token) ==> token_holder(with_token(db, id, token).tokens, token)
            == Some(id),
{
    let before = db.tokens;
    let after = put_secret(before, id, token);
    lemma_secret_put(before, id, token);
    let at = match secret_position(before, id) {
        Some(i) => i,
        None => before.len() as int,
    };
    assert(after[at] == SecretView { user_id: id, text: token });
    assert forall|k: int| 0 <= k < after.len() && k != at implies (#[trigger] after[k]).user_id
        != id by {
        assert(after[at].user_id == id);
    }
    assert forall|other: Seq<char>| other != token implies token_holder(after, other) != Some(
        id,
    ) by {
        if exists|i: int| first_holder_at(after, other, i) {
            let i = choose|i: int| first_holder_at(after, other, i);
            assert(i != at);
            assert(after[i].user_id != id);
        }
    }
    if forall|i: int|
        0 <= i < before.len() && (#[trigger] before[i]).user_id != id ==> before[i].text != token {
        assert forall|k: int| 0 <= k < after.len() && k != at implies (#[trigger] after[k]).text
            != token by {
            assert(after[k] == before[k]);
            assert(before[k].user_id != id);
        }
        assert(first_holder_at(after, token, at));
        let i = choose|i: int| first_holder_at(after, token, i);
        assert(i == at);
    }
}

/// The state after the user `id` was given each of `tokens` in turn.
pub open spec fn with_tokens(db: DbView, id: u32, tokens: Seq<Seq<char>>) -> DbView
    decreases tokens.len(),
{
    if tokens.len() == 0 {
        db
    } else {
        with_token(with_tokens(db, id, tokens.drop_last()), id, tokens.last())
    }
}

/// After a user was given any number of tokens in turn, the last of them is
/// the user's token, and no other text authenticates as that user.
pub proof fn lemma_latest_of_many_tokens(db: DbView, id: u32, tokens: Seq<Seq<char>>)
    requires
        db_wf(db),
    ensures
        db_wf(with_tokens(db, id, tokens)),
        tokens.len() > 0 ==> secret_of(with_tokens(db, id, tokens).tokens, id) == Some(tokens.last()),
        tokens.len() > 0 ==> forall|other: Seq<char>|
            other != tokens.last() ==> token_holder(with_tokens(db, id, tokens).tokens, other)
                != Some(id),
    decreases tokens.len(),
{
    if tokens.len() > 0 {
        lemma_latest_of_many_tokens(db, id, tokens.drop_last());
        lemma_latest_token(with_tokens(db, id, tokens.drop_last()), id, tokens.last());
    }
}

/// Yanking a version and then unyanking it leaves the store as it was.
pub proof fn lemma_yank_then_unyank(db: DbView, name: Seq<char>, vers: Seq<char>, yanked: DbView)
    requires
        db_wf(db),
        with_yanked(db, name, vers, true) == Ok::<DbView, crate::error::ErrorView>(yanked),
    ensures
        db_wf(yanked),
        with_yanked(yanked, name, vers, false) == Ok::<DbView, crate::error::ErrorView>(db),
{
    lemma_flag_round_trip(db, name, vers, true, yanked);
}

/// Unyanking a version and then yanking it leaves the store as it was.
pub proof fn lemma_unyank_then_yank(db: DbView, name: Seq<char>, vers: Seq<char>, unyanked: DbView)
    requires
        db_wf(db),
        with_yanked(db, name, vers, false) == Ok::<DbView, crate::error::ErrorView>(unyanked),
    ensures
        db_wf(unyanked),
        with_yanked(unyanked, name, vers, true) == Ok::<DbView, crate::error::ErrorView>(db),
{
    lemma_flag_round_trip(db, name, vers, false, unyanked);
}

proof fn lemma_flag_round_trip(
    db: DbView,
    name: Seq<char>,
    vers: Seq<char>,
    flag: bool,
    changed: DbView,
)
    requires
        db_wf(db),
        with_yanked(db, name, vers, flag) == Ok::<DbView, crate::error::ErrorView>(changed),
    ensures
        db_wf(changed),
        with_yanked(changed, name, vers, !flag) == Ok::<DbView, crate::error::ErrorView>(db),
{
    let key = normal_name(name);
    let entry = entry_of(db.entries, key);
    let j = version_position(entry.versions, vers)->0;
    assert(entry_position(db.entries, key) is Some) by {
        if entry_position(db.entries, key) is None {
            assert(version_position(entry.versions, vers) is None);
        }
    }
    let i = entry_position(db.entries, key)->0;
    assert(entry_wf(db.entries[i].entry));
    let flipped = entry.versions.update(j, MetadataView { yanked: flag, ..entry.versions[j] });
    let between = EntryView { versions: flipped, ..entry };
    lemma_entry_put(db.entries, key, between);
    assert(flipped[j].vers == vers);
    assert(distinct_versions(flipped)) by {
        assert forall|a: int, b: int|
            0 <= a < flipped.len() && 0 <= b < flipped.len() && a != b implies (
        #[trigger] flipped[a]).vers != (#[trigger] flipped[b]).vers by {
            assert(entry.versions[a].vers != entry.versions[b].vers);
        }
    }
    let found = choose|k: int| 0 <= k < flipped.len() && (#[trigger] flipped[k]).vers == vers;
    assert(found == j);
    assert(changed.entries == db.entries.update(i, EntryRecordView { name: key, entry: between }));
    assert(db_wf(changed)) by {
        assert forall|k: int| 0 <= k < changed.entries.len() implies entry_wf(
            (#[trigger] changed.entries[k]).entry,
        ) by {
            if k != i {
                assert(changed.entries[k] == db.entries[k]);
            }
        }
    }
    let restored = flipped.update(j, MetadataView { yanked: !flag, ..flipped[j] });
    assert(restored =~= entry.versions);
    let back = EntryView { versions: restored, ..between };
    assert(back == entry);
    let k = entry_position(changed.entries, key)->0;
    assert(changed.entries[i].name == key);
    assert(k == i);
    assert(put_entry(changed.entries, key, back) =~= db.entries);
}

/// After a crate was published for the first time, its owner cannot publish
/// another version under a different spelling of its name: the check for
/// the other spelling answers that the name overlaps.
pub proof fn lemma_overlap_refused(
    db: DbView,
    owner_id: u32,
    first: MetadataView,
    after: DbView,
    other_name: Seq<char>,
    other_vers: Seq<char>,
)
    requires
        db_wf(db),
        entry_is_empty(entry_named(db, first.name)),
        with_metadata(db, owner_id, first) == Ok::<DbView, crate::error::ErrorView>(after),
        valid_name(other_name),
        normal_name(other_name) == normal_name(first.name),
        other_name != first.name,
        other_vers != first.vers,
    ensures
        may_add_metadata(after, owner_id, other_name, other_vers) == Ok::<
            bool,
            crate::error::ErrorView,
        >(false),
{
    let key = normal_name(first.name);
    let entry = entry_of(db.entries, key);
    let published = EntryView { versions: put_version(entry.versions, first), owner_ids: seq![owner_id] };
    lemma_entry_put(db.entries, key, published);
    assert(version_position(entry.versions, first.vers) is None);
    assert(published.versions =~= seq![first]);
    assert(published.owner_ids[0] == owner_id);
    assert(published.versions[0] == first);
    assert(version_position(published.versions, other_vers) is None);
    assert(newest_at(published.versions, true, 0));
    let j = choose|j: int| newest_at(published.versions, true, j);
    lemma_newest_unique(published.versions, true, j, 0);
}

/// Every version of `entry` spells the name of the crate in one way.
pub open spec fn one_spelling(entry: EntryView) -> bool {
    forall|i: int, j: int|
        0 <= i < entry.versions.len() && 0 <= j < entry.versions.len() ==> (
        #[trigger] entry.versions[i]).name == (#[trigger] entry.versions[j]).name
}

/// Every crate of the store is spelled in one way by all its versions.
pub open spec fn spellings_kept(db: DbView) -> bool {
    forall|i: int| 0 <= i < db.entries.len() ==> one_spelling((#[trigger] db.entries[i]).entry)
}

/// A version published after the check for it allowed it spells the name
/// of its crate as every earlier version does.
pub proof fn lemma_publish_keeps_spelling(
    db: DbView,
    user_id: u32,
    metadata: MetadataView,
    after: DbView,
)
    requires
        db_wf(db),
        spellings_kept(db),
        may_add_metadata(db, user_id, metadata.name, metadata.vers) == Ok::<
            bool,
            crate::error::ErrorView,
        >(true),
        with_metadata(db, user_id, metadata) == Ok::<DbView, crate::error::ErrorView>(after),
    ensures
        spellings_kept(after),
{
    let key = normal_name(metadata.name);
    let old_entry = entry_of(db.entries, key);
    let owner_ids = if entry_is_empty(old_entry) {
        seq![user_id]
    } else {
        old_entry.owner_ids
    };
    let entry = EntryView { versions: put_version(old_entry.versions, metadata), owner_ids };
    let at = match entry_position(db.entries, key) {
        Some(i) => i,
        None => db.entries.len() as int,
    };
    assert(after.entries[at].entry == entry);
    assert(one_spelling(entry)) by {
        if entry_is_empty(old_entry) {
            assert(entry.versions =~= seq![metadata]);
        } else {
            let i = entry_position(db.entries, key)->0;
            assert(one_spelling(db.entries[i].entry));
            let j = newest_position(old_entry.versions, true)->0;
            assert(newest_at(old_entry.versions, true, j));
            assert(old_entry.versions[j].name == metadata.name);
            assert(entry.versions =~= old_entry.versions.push(metadata));
            assert forall|a: int, b: int|
                0 <= a < entry.versions.len() && 0 <= b < entry.versions.len() implies (
            #[trigger] entry.versions[a]).name == (#[trigger] entry.versions[b]).name by {
                if a < old_entry.versions.len() {
                    assert(old_entry.versions[a].name == old_entry.versions[j].name);
                }
                if b < old_entry.versions.len() {
                    assert(old_entry.versions[b].name == old_entry.versions[j].name);
                }
            }
        }
    }
    assert forall|k: int| 0 <= k < after.entries.len() implies one_spelling(
        (#[trigger] after.entries[k]).entry,
    ) by {
        if k != at {
            assert(after.entries[k] == db.entries[k]);
        }
    }
}

/// A crate whose versions all spell its name in one way takes no version
/// under another spelling: the check for the other spelling answers that
/// the name overlaps.
pub proof fn lemma_other_spelling_refused(db: DbView, user_id: u32, name: Seq<char>, vers: Seq<char>)
    requires
        db_wf(db),
        valid_name(name),
        one_spelling(entry_named(db, name)),
        entry_named(db, name).versions.len() > 0,
        entry_named(db, name).versions[0].name != name,
        entry_named(db, name).owner_ids.contains(user_id),
        version_position(entry_named(db, name).versions, vers) is None,
    ensures
        may_add_metadata(db, user_id, name, vers) == Ok::<bool, crate::error::ErrorView>(false),
{
    let entry = entry_named(db, name);
    if newest_position(entry.versions, true) is Some {
        let j = newest_position(entry.versions, true)->0;
        assert(newest_at(entry.versions, true, j));
        assert(entry.versions[j].name == entry.versions[0].name);
    }
}

/// No operation of the store forgets a crate or a version: after a
/// publication, and after a version was marked, every entry stands where it
/// stood, under its name, and holds every version it held.
pub proof fn lemma_nothing_is_forgotten(db: DbView, after: DbView, i: int, vers: Seq<char>)
    requires
        db_wf(db),
        0 <= i < db.entries.len(),
        version_position(db.entries[i].entry.versions, vers) is Some,
        (exists|owner_id: u32, metadata: MetadataView|
            with_metadata(db, owner_id, metadata) == Ok::<DbView, crate::error::ErrorView>(after))
            || (exists|name: Seq<char>, marked: Seq<char>, yanked: bool|
            with_yanked(db, name, marked, yanked) == Ok::<DbView, crate::error::ErrorView>(after)),
    ensures
        i < after.entries.len(),
        after.entries[i].name == db.entries[i].name,
        version_position(after.entries[i].entry.versions, vers) is Some,
{
    let before = db.entries[i].entry.versions;
    let p = version_position(before, vers)->0;
    assert(entry_wf(db.entries[i].entry));
    if exists|owner_id: u32, metadata: MetadataView|
        with_metadata(db, owner_id, metadata) == Ok::<DbView, crate::error::ErrorView>(after) {
        let (owner_id, metadata) = choose|owner_id: u32, metadata: MetadataView|
            with_metadata(db, owner_id, metadata) == Ok::<DbView, crate::error::ErrorView>(after);
        let key = normal_name(metadata.name);
        if entry_position(db.entries, key) == Some(i) {
            let now = after.entries[i].entry.versions;
            assert(now == put_version(before, metadata));
            assert(now[p].vers == vers);
        } else {
            assert(after.entries[i] == db.entries[i]);
        }
    } else {
        let (name, marked, yanked) = choose|name: Seq<char>, marked: Seq<char>, yanked: bool|
            with_yanked(db, name, marked, yanked) == Ok::<DbView, crate::error::ErrorView>(after);
        let key = normal_name(name);
        if entry_position(db.entries, key) == Some(i) {
            let now = after.entries[i].entry.versions;
            assert(now[p].vers == vers);
        } else {
            assert(entry_position(db.entries, key) is Some) by {
                if entry_position(db.entries, key) is None {
                    assert(version_position(entry_of(db.entries, key).versions, marked) is None);
                }
            }
            assert(after.entries[i] == db.entries[i]);
        }
    }
}

/// After a version was marked as yanked, or as not yanked, it carries the
/// mark in the store, and nothing else of it has changed.
pub proof fn lemma_mark_is_kept(
    db: DbView,
    name: Seq<char>,
    vers: Seq<char>,
    yanked: bool,
    after: DbView,
)
    requires
        db_wf(db),
        with_yanked(db, name, vers, yanked) == Ok::<DbView, crate::error::ErrorView>(after),
    ensures
        version_position(entry_named(after, name).versions, vers) == version_position(
            entry_named(db, name).versions,
            vers,
        ),
        version_position(entry_named(db, name).versions, vers) matches Some(j) && entry_named(
            after,
            name,
        ).versions[j] == (MetadataView { yanked, ..entry_named(db, name).versions[j] }),
{
    let key = normal_name(name);
    let entry = entry_of(db.entries, key);
    let j = version_position(entry.versions, vers)->0;
    assert(entry_position(db.entries, key) is Some) by {
        if entry_position(db.entries, key) is None {
            assert(version_position(entry.versions, vers) is None);
        }
    }
    let i = entry_position(db.entries, key)->0;
    assert(entry_wf(db.entries[i].entry));
    let flipped = entry.versions.update(j, MetadataView { yanked, ..entry.versions[j] });
    let changed = EntryView { versions: flipped, ..entry };
    lemma_entry_put(db.entries, key, changed);
    assert(flipped[j].vers == vers);
    assert forall|a: int, b: int|
        0 <= a < flipped.len() && 0 <= b < flipped.len() && a != b implies (#[trigger] flipped[a]).vers
        != (#[trigger] flipped[b]).vers by {
        assert(entry.versions[a].vers != entry.versions[b].vers);
    }
    let found = choose|k: int| 0 <= k < flipped.len() && (#[trigger] flipped[k]).vers == vers;
    assert(found == j);
}

/// After a password was changed, the new password is accepted.
pub proof fn lemma_new_password_accepted(
    before: DbView,
    after: DbView,
    r: Result<(), Error>,
    id: u32,
    old_password: Seq<char>,
    new_password: Seq<char>,
    salt: Seq<char>,
)
    requires
        db_wf(before),
        password_changed(before, after, r, id, old_password, new_password, salt),
        r is Ok,
    ensures
        password_accepted(after, id, new_password),
        old_password != new_password,
        password_accepted(before, id, old_password),
{
    let current = secret_of(before.passwords, id)->0;
    let encoded = crate::password::password_hash(new_password, salt)->0;
    lemma_secret_put(before.passwords, id, encoded);
}

/// The row of an entry that matches is among the rows found.
pub proof fn lemma_row_is_found(entries: Seq<EntryRecordView>, needle: Seq<char>, i: int)
    requires
        0 <= i < entries.len(),
        contains_text(entries[i].name, needle),
        row_of(entries[i].entry) is Some,
    ensures
        found_rows(entries, needle).contains(row_of(entries[i].entry)->0),
    decreases entries.len(),
{
    let rows = found_rows(entries, needle);
    let front = entries.drop_last();
    let before = found_rows(front, needle);
    if i == entries.len() - 1 {
        assert(rows == before.push(row_of(entries[i].entry)->0));
        assert(rows[rows.len() - 1] == row_of(entries[i].entry)->0);
    } else {
        assert(front[i] == entries[i]);
        lemma_row_is_found(front, needle, i);
        let row = row_of(entries[i].entry)->0;
        let k = choose|k: int| 0 <= k < before.len() && before[k] == row;
        assert(rows[k] == row);
    }
}

/// A version that was published and is not yanked is found by a search for
/// the name of its crate: the crate has a row among all the rows found, and
/// that row shows the version or a newer one; it shows the very version
/// where no version of the crate that is not yanked is newer. The row is
/// among those returned where the search asked for as many as were found.
pub proof fn lemma_published_is_found(
    db: DbView,
    owner_id: u32,
    metadata: MetadataView,
    after: DbView,
    limit: usize,
    crates: Seq<SearchedMetadataView>,
    total: usize,
)
    requires
        db_wf(db),
        !metadata.yanked,
        with_metadata(db, owner_id, metadata) == Ok::<DbView, crate::error::ErrorView>(after),
        search_answer(after, normal_name(metadata.name), limit, crates, total),
    ensures
        row_of(entry_named(after, metadata.name)) matches Some(row) && {
            &&& search_rows(after, normal_name(metadata.name)).contains(row)
            &&& total <= limit ==> crates.contains(row)
            &&& row.max_version == metadata.vers || version_lt(metadata.vers, row.max_version)
            &&& (forall|j: int| #[trigger]
                counts(entry_named(after, metadata.name).versions, false, j) ==> !version_lt(
                    metadata.vers,
                    entry_named(after, metadata.name).versions[j].vers,
                )) ==> row.max_version == metadata.vers
        },
{
    let key = normal_name(metadata.name);
    let old_entry = entry_of(db.entries, key);
    let owner_ids = if entry_is_empty(old_entry) {
        seq![owner_id]
    } else {
        old_entry.owner_ids
    };
    let entry = EntryView { versions: put_version(old_entry.versions, metadata), owner_ids };
    lemma_entry_put(db.entries, key, entry);
    assert(entry_named(after, metadata.name) == entry);
    let p = match version_position(old_entry.versions, metadata.vers) {
        Some(j) => j,
        None => old_entry.versions.len() as int,
    };
    assert(entry.versions[p] == metadata);
    assert(counts(entry.versions, false, p));
    assert(has_unyanked(entry));
    let i = entry_position(after.entries, key)->0;
    assert(after.entries[i].entry == entry);
    lemma_normalize_idempotent(metadata.name);
    assert(contains_text(key, key)) by {
        assert(key.subrange(0, key.len() as int) =~= key);
        assert(stands_at(key, key, 0));
    }
    assert(row_of(after.entries[i].entry) is Some);
    let j = newest_position(entry.versions, false)->0;
    let row = search_row(entry.versions[j]);
    lemma_row_is_found(after.entries, key, i);
    if j != p {
        assert(version_lt(entry.versions[p].vers, entry.versions[j].vers));
    }
}

} // verus!
