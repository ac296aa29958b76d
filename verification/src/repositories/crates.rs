//! Access to the table of crates.

use vstd::prelude::*;
use crate::database::{Database, Tables};
use crate::errors::RepositoryError;
use crate::models::{views, Crate, CrateView, NewCrate, NewCrateView};
use crate::repositories::rustaceans::rustacean_position;
use crate::schema::{lemma_same_accounts_wf, max_id, prefix, DatabaseView};

verus! {

/// The operations on crates.
pub struct CrateRepository;

/// The position of the row with key `id` in the table.
pub(crate) fn crate_position(tables: &Tables, id: i32) -> (found: Option<usize>)
    requires
        tables@.wf(),
    ensures
        found.is_some() == tables@.has_crate(id as int),
        found matches Some(i) ==> i < tables.crates.len() && tables.crates[i as int].id == id
            && tables@.crate_index(id as int) == i,
{
    let rows = &tables.crates;
    let mut i: usize = 0;
    while i < rows.len()
        invariant
            i <= rows.len(),
            rows == &tables.crates,
            tables@.wf(),
            forall|k: int| 0 <= k < i ==> (#[trigger] tables@.crates[k]).id != id,
        decreases rows.len() - i,
    {
        if rows[i].id == id {
            assert(tables@.crates[i as int].id == id);
            return Some(i);
        }
        assert(tables@.crates[i as int].id != id);
        i += 1;
    }
    None
}

impl CrateRepository {
    /// The first `limit` crates by ascending key, or all of them where there
    /// are fewer.
    pub fn find_multiple(db: &Database, limit: usize) -> (found: Vec<Crate>)
        ensures
            views(found@) == prefix(db@.crates, limit as int),
    {
        let mut found: Vec<Crate> = Vec::new();
        let mut i: usize = 0;
        while i < db.tables.crates.len() && i < limit
            invariant
                i <= db.tables.crates.len(),
                i <= limit,
                found.len() == i,
                forall|k: int| 0 <= k < i ==> (#[trigger] found[k])@ == db.tables.crates[k]@,
            decreases db.tables.crates.len() - i,
        {
            found.push(db.tables.crates[i].clone());
            i += 1;
        }
        assert(views(found@) =~= prefix(db@.crates, limit as int));
        found
    }

    /// The crate with key `id`; `NotFound` exactly where there is none.
    pub fn find(db: &Database, id: i32) -> (found: Result<Crate, RepositoryError>)
        ensures
            match found {
                Ok(row) => db@.has_crate(id as int) && row@ == db@.crate_row(id as int),
                Err(e) => e == RepositoryError::NotFound && !db@.has_crate(id as int),
            },
    {
        proof {
            use_type_invariant(db);
        }
        match crate_position(&db.tables, id) {
            Some(i) => Ok(db.tables.crates[i].clone()),
            None => Err(RepositoryError::NotFound),
        }
    }

    /// Publishes a crate under the next key, with `now` as its creation time.
    /// It fails, changing nothing, with `ConstraintViolation` where the owner
    /// named is no rustacean, and otherwise with `SequenceExhausted` where the
    /// keys have run out.
    pub fn create(db: &mut Database, new_crate: NewCrate, now: i64) -> (created: Result<
        Crate,
        RepositoryError,
    >)
        ensures
            match created {
                Ok(row) => {
                    &&& old(db)@.has_rustacean(new_crate.rustacean_id as int)
                    &&& old(db)@.next_crate_id <= max_id()
                    &&& row@ == old(db)@.new_crate(new_crate@, now as int)
                    &&& final(db)@ == old(db)@.with_crate(row@)
                },
                Err(e) => {
                    &&& final(db)@ == old(db)@
                    &&& e == if !old(db)@.has_rustacean(new_crate.rustacean_id as int) {
                        RepositoryError::ConstraintViolation
                    } else {
                        RepositoryError::SequenceExhausted
                    }
                    &&& !old(db)@.has_rustacean(new_crate.rustacean_id as int) || old(
                        db,
                    )@.next_crate_id > max_id()
                },
            },
    {
        let mut tables = db.take();
        if rustacean_position(&tables, new_crate.rustacean_id).is_none() {
            db.put(tables);
            return Err(RepositoryError::ConstraintViolation);
        }
        if tables.next_crate_id > 0x7fff_ffff {
            db.put(tables);
            return Err(RepositoryError::SequenceExhausted);
        }
        let row = Crate {
            id: tables.next_crate_id as i32,
            rustacean_id: new_crate.rustacean_id,
            code: new_crate.code,
            name: new_crate.name,
            version: new_crate.version,
            description: new_crate.description,
            created_at: now,
        };
        let created = row.clone();
        tables.crates.push(row);
        tables.next_crate_id = tables.next_crate_id + 1;
        proof {
            let before = old(db)@;
            assert(tables@.crates =~= before.crates.push(created@));
            assert(tables@ == before.with_crate(created@));
            lemma_with_crate_wf(before, created@);
        }
        db.put(tables);
        Ok(created)
    }

    /// Overwrites the owner, code, name, version and description of the crate
    /// with key `id` by those of `a_crate`, whose own key and creation time are
    /// not read. It fails, changing nothing, with `NotFound` where no row has
    /// the key, and otherwise with `ConstraintViolation` where the owner named
    /// is no rustacean.
    pub fn update(db: &mut Database, id: i32, a_crate: Crate) -> (updated: Result<
        Crate,
        RepositoryError,
    >)
        ensures
            final(db)@ == old(db)@.after_crate_update(id as int, a_crate@),
            match updated {
                Ok(row) => {
                    &&& old(db)@.has_crate(id as int)
                    &&& old(db)@.has_rustacean(a_crate.rustacean_id as int)
                    &&& row@ == old(db)@.revised_crate(id as int, a_crate@)
                    &&& final(db)@ == old(db)@.with_crate_revised(id as int, a_crate@)
                },
                Err(e) => {
                    &&& final(db)@ == old(db)@
                    &&& e == if !old(db)@.has_crate(id as int) {
                        RepositoryError::NotFound
                    } else {
                        RepositoryError::ConstraintViolation
                    }
                    &&& !old(db)@.has_crate(id as int) || !old(db)@.has_rustacean(
                        a_crate.rustacean_id as int,
                    )
                },
            },
    {
        let mut tables = db.take();
        let i = match crate_position(&tables, id) {
            Some(i) => i,
            None => {
                db.put(tables);
                return Err(RepositoryError::NotFound);
            },
        };
        if rustacean_position(&tables, a_crate.rustacean_id).is_none() {
            db.put(tables);
            return Err(RepositoryError::ConstraintViolation);
        }
        let row = Crate {
            id,
            rustacean_id: a_crate.rustacean_id,
            code: a_crate.code,
            name: a_crate.name,
            version: a_crate.version,
            description: a_crate.description,
            created_at: tables.crates[i].created_at,
        };
        let updated = row.clone();
        tables.crates.set(i, row);
        proof {
            let before = old(db)@;
            assert(tables@.crates =~= before.crates.update(i as int, updated@));
            assert(tables@ == before.with_crate_revised(id as int, a_crate@));
            lemma_with_crate_revised_wf(before, id as int, a_crate@);
        }
        db.put(tables);
        Ok(updated)
    }

    /// Removes the crate with key `id` and says how many rows went: one, or
    /// none where no row has the key.
    pub fn delete(db: &mut Database, id: i32) -> (deleted: usize)
        ensures
            final(db)@ == old(db)@.without_crate(id as int),
            deleted == if old(db)@.has_crate(id as int) { 1usize } else { 0usize },
    {
        let mut tables = db.take();
        match crate_position(&tables, id) {
            Some(i) => {
                tables.crates.remove(i);
                proof {
                    let before = old(db)@;
                    assert(tables@.crates =~= before.crates.remove(i as int));
                    assert(tables@ == before.without_crate(id as int));
                    lemma_without_crate_wf(before, id as int);
                }
                db.put(tables);
                1
            },
            None => {
                db.put(tables);
                0
            },
        }
    }
}

/// A crate that has just been published is found under its key, as the row
/// that the publication returned, and that row carries the submitted fields.
pub proof fn lemma_create_then_find(db: DatabaseView, new: NewCrateView, now: int)
    requires
        db.wf(),
        db.next_crate_id <= max_id(),
        db.has_rustacean(new.rustacean_id),
    ensures
        ({
            let row = db.new_crate(new, now);
            let after = db.with_crate(row);
            &&& after.has_crate(row.id)
            &&& after.crate_row(row.id) == row
            &&& row.rustacean_id == new.rustacean_id
            &&& row.code == new.code
            &&& row.name == new.name
            &&& row.version == new.version
            &&& row.description == new.description
        }),
{
    let row = db.new_crate(new, now);
    let after = db.with_crate(row);
    lemma_with_crate_wf(db, row);
    assert(after.crates[db.crates.len() as int] == row);
}

/// Updating a crate twice with the same payload leaves the registry as the
/// first update left it.
pub proof fn lemma_update_idempotent(db: DatabaseView, id: int, payload: CrateView)
    requires
        db.wf(),
    ensures
        db.after_crate_update(id, payload).after_crate_update(id, payload)
            == db.after_crate_update(id, payload),
{
    let once = db.after_crate_update(id, payload);
    if db.has_crate(id) && db.has_rustacean(payload.rustacean_id) {
        let at = db.crate_index(id);
        lemma_with_crate_revised_wf(db, id, payload);
        assert(once.crates[at].id == id);
        assert(once.crate_index(id) == at);
        assert(once.rustaceans == db.rustaceans);
        assert(once.rustaceans[db.rustacean_index(payload.rustacean_id)].id
            == payload.rustacean_id);
        assert(once.revised_crate(id, payload) == db.revised_crate(id, payload));
        assert(once.with_crate_revised(id, payload).crates =~= once.crates);
    }
}

/// After a crate is given to another rustacean of the registry, it is listed
/// among the crates of the new owner and of nobody else.
pub proof fn lemma_update_moves_crate(db: DatabaseView, id: int, payload: CrateView, owner: int)
    requires
        db.wf(),
        db.has_crate(id),
        db.has_rustacean(payload.rustacean_id),
    ensures
        ({
            let after = db.with_crate_revised(id, payload);
            &&& after.has_crate(id)
            &&& after.crate_row(id) == db.revised_crate(id, payload)
            &&& after.crates_of(payload.rustacean_id).contains(after.crate_row(id))
            &&& owner != payload.rustacean_id ==> forall|k: int|
                0 <= k < after.crates_of(owner).len() ==> (#[trigger] after.crates_of(owner)[k]).id
                    != id
        }),
{
    let after = db.with_crate_revised(id, payload);
    let at = db.crate_index(id);
    lemma_with_crate_revised_wf(db, id, payload);
    assert(after.crates[at].id == id);
    assert(after.crate_index(id) == at);
    let listed = |c: CrateView| c.rustacean_id == payload.rustacean_id;
    after.crates.lemma_filter_contains(listed, at);
    if owner != payload.rustacean_id {
        let under = |c: CrateView| c.rustacean_id == owner;
        assert forall|k: int| 0 <= k < after.crates_of(owner).len() implies (
        #[trigger] after.crates_of(owner)[k]).id != id by {
            let row = after.crates_of(owner)[k];
            after.crates.lemma_filter_pred(under, k);
            assert(after.crates.filter(under).contains(row));
            after.crates.lemma_filter_contains_rev(under, row);
            let j = choose|j: int| 0 <= j < after.crates.len() && after.crates[j] == row;
            if row.id == id {
                assert(j == at);
            }
        }
    }
}

/// A crate that has been removed is no longer found, and the removal keeps
/// every other row.
pub proof fn lemma_delete_then_find(db: DatabaseView, id: int)
    requires
        db.wf(),
    ensures
        !db.without_crate(id).has_crate(id),
        forall|other: int|
            other != id && db.has_crate(other) ==> db.without_crate(id).has_crate(other)
                && db.without_crate(id).crate_row(other) == db.crate_row(other),
{
    let after = db.without_crate(id);
    lemma_without_crate_wf(db, id);
    if db.has_crate(id) {
        let gone = db.crate_index(id);
        if after.has_crate(id) {
            let k = after.crate_index(id);
            let from = if k < gone { k } else { k + 1 };
            assert(after.crates[k] == db.crates[from]);
        }
        assert forall|other: int| other != id && db.has_crate(other) implies after.has_crate(other)
            && after.crate_row(other) == db.crate_row(other) by {
            let from = db.crate_index(other);
            let k = if from < gone { from } else { from - 1 };
            assert(after.crates[k] == db.crates[from]);
            assert(after.crate_index(other) == k);
        }
    }
}

/// Adding a crate under a key that was not handed out yet, owned by a
/// rustacean of the registry, keeps the integrity rules.
pub proof fn lemma_with_crate_wf(db: DatabaseView, row: CrateView)
    requires
        db.wf(),
        db.next_crate_id <= row.id <= max_id(),
        db.has_rustacean(row.rustacean_id),
    ensures
        db.with_crate(row).wf(),
{
    let after = db.with_crate(row);
    lemma_same_accounts_wf(db, after);
    assert(after.rustaceans == db.rustaceans);
    assert forall|i: int| 0 <= i < after.crates.len() implies after.has_rustacean(
        (#[trigger] after.crates[i]).rustacean_id,
    ) by {
        let owner = after.crates[i].rustacean_id;
        if i < db.crates.len() {
            assert(db.has_rustacean(db.crates[i].rustacean_id));
        }
        assert(db.has_rustacean(owner));
        assert(after.rustaceans[db.rustacean_index(owner)].id == owner);
    }
    assert forall|i: int, j: int| 0 <= i < j < after.crates.len() implies (
    #[trigger] after.crates[i]).id < (#[trigger] after.crates[j]).id by {
        if j < db.crates.len() {
            assert(db.crates[i].id < db.crates[j].id);
        } else {
            assert(db.crates[i].id < db.next_crate_id);
        }
    }
}

/// Overwriting a crate keeps the integrity rules where the new owner is a
/// rustacean of the registry.
pub proof fn lemma_with_crate_revised_wf(db: DatabaseView, id: int, payload: CrateView)
    requires
        db.wf(),
        db.has_crate(id),
        db.has_rustacean(payload.rustacean_id),
    ensures
        db.with_crate_revised(id, payload).wf(),
{
    let after = db.with_crate_revised(id, payload);
    let at = db.crate_index(id);
    lemma_same_accounts_wf(db, after);
    assert(after.rustaceans == db.rustaceans);
    assert forall|i: int| 0 <= i < after.crates.len() implies after.has_rustacean(
        (#[trigger] after.crates[i]).rustacean_id,
    ) by {
        let owner = after.crates[i].rustacean_id;
        if i != at {
            assert(db.has_rustacean(db.crates[i].rustacean_id));
        }
        assert(db.has_rustacean(owner));
        assert(after.rustaceans[db.rustacean_index(owner)].id == owner);
    }
    assert forall|i: int| 0 <= i < after.crates.len() implies 1 <= (#[trigger] after.crates[i]).id
        < after.next_crate_id by {
        assert(after.crates[i].id == db.crates[i].id);
    }
    assert forall|i: int, j: int| 0 <= i < j < after.crates.len() implies (
    #[trigger] after.crates[i]).id < (#[trigger] after.crates[j]).id by {
        assert(after.crates[i].id == db.crates[i].id);
        assert(after.crates[j].id == db.crates[j].id);
    }
}

/// Removing a crate keeps the integrity rules.
pub proof fn lemma_without_crate_wf(db: DatabaseView, id: int)
    requires
        db.wf(),
    ensures
        db.without_crate(id).wf(),
{
    let after = db.without_crate(id);
    lemma_same_accounts_wf(db, after);
    if db.has_crate(id) {
        let gone = db.crate_index(id);
        assert(after.rustaceans == db.rustaceans);
        assert forall|i: int| 0 <= i < after.crates.len() implies after.has_rustacean(
            (#[trigger] after.crates[i]).rustacean_id,
        ) by {
            let owner = after.crates[i].rustacean_id;
            let k = if i < gone { i } else { i + 1 };
            assert(after.crates[i] == db.crates[k]);
            assert(db.has_rustacean(owner));
            assert(after.rustaceans[db.rustacean_index(owner)].id == owner);
        }
        assert forall|i: int| 0 <= i < after.crates.len() implies 1 <= (
        #[trigger] after.crates[i]).id < after.next_crate_id by {
            let k = if i < gone { i } else { i + 1 };
            assert(after.crates[i] == db.crates[k]);
        }
        assert forall|i: int, j: int| 0 <= i < j < after.crates.len() implies (
        #[trigger] after.crates[i]).id < (#[trigger] after.crates[j]).id by {
            let ki = if i < gone { i } else { i + 1 };
            let kj = if j < gone { j } else { j + 1 };
            assert(after.crates[i] == db.crates[ki]);
            assert(after.crates[j] == db.crates[kj]);
        }
    }
}

} // verus!
