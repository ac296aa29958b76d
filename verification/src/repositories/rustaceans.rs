//! Access to the table of rustaceans.

use vstd::prelude::*;
use crate::database::{Database, Tables};
use crate::errors::RepositoryError;
use crate::models::{views, NewRustacean, NewRustaceanView, Rustacean, RustaceanView};
use crate::schema::{lemma_same_accounts_wf, max_id, prefix, DatabaseView};

verus! {

/// The operations on rustaceans.
pub struct RustaceanRepository;

/// The position of the row with key `id` in the table.
pub(crate) fn rustacean_position(tables: &Tables, id: i32) -> (found: Option<usize>)
    requires
        tables@.wf(),
    ensures
        found.is_some() == tables@.has_rustacean(id as int),
        found matches Some(i) ==> i < tables.rustaceans.len() && tables.rustaceans[i as int].id == id
            && tables@.rustacean_index(id as int) == i,
{
    let rows = &tables.rustaceans;
    let mut i: usize = 0;
    while i < rows.len()
        invariant
            i <= rows.len(),
            rows == &tables.rustaceans,
            tables@.wf(),
            forall|k: int| 0 <= k < i ==> (#[trigger] tables@.rustaceans[k]).id != id,
        decreases rows.len() - i,
    {
        if rows[i].id == id {
            assert(tables@.rustaceans[i as int].id == id);
            return Some(i);
        }
        assert(tables@.rustaceans[i as int].id != id);
        i += 1;
    }
    None
}

impl RustaceanRepository {
    /// The first `limit` rustaceans by ascending key, or all of them where
    /// there are fewer.
    pub fn find_multiple(db: &Database, limit: usize) -> (found: Vec<Rustacean>)
        ensures
            views(found@) == prefix(db@.rustaceans, limit as int),
    {
        let mut found: Vec<Rustacean> = Vec::new();
        let mut i: usize = 0;
        while i < db.tables.rustaceans.len() && i < limit
            invariant
                i <= db.tables.rustaceans.len(),
                i <= limit,
                found.len() == i,
                forall|k: int| 0 <= k < i ==> (#[trigger] found[k])@ == db.tables.rustaceans[k]@,
            decreases db.tables.rustaceans.len() - i,
        {
            found.push(db.tables.rustaceans[i].clone());
            i += 1;
        }
        assert(views(found@) =~= prefix(db@.rustaceans, limit as int));
        found
    }

    /// The rustacean with key `id`; `NotFound` exactly where there is none.
    pub fn find(db: &Database, id: i32) -> (found: Result<Rustacean, RepositoryError>)
        ensures
            match found {
                Ok(row) => db@.has_rustacean(id as int) && row@ == db@.rustacean(id as int),
                Err(e) => e == RepositoryError::NotFound && !db@.has_rustacean(id as int),
            },
    {
        proof {
            use_type_invariant(db);
        }
        match rustacean_position(&db.tables, id) {
            Some(i) => Ok(db.tables.rustaceans[i].clone()),
            None => Err(RepositoryError::NotFound),
        }
    }

    /// Registers a rustacean under the next key, with `now` as its creation
    /// time. It fails, changing nothing, exactly where the keys have run out.
    pub fn create(db: &mut Database, new_rustacean: NewRustacean, now: i64) -> (created: Result<
        Rustacean,
        RepositoryError,
    >)
        ensures
            match created {
                Ok(row) => {
                    &&& old(db)@.next_rustacean_id <= max_id()
                    &&& row@ == old(db)@.new_rustacean(new_rustacean@, now as int)
                    &&& final(db)@ == old(db)@.with_rustacean(row@)
                },
                Err(e) => {
                    &&& e == RepositoryError::SequenceExhausted
                    &&& old(db)@.next_rustacean_id > max_id()
                    &&& final(db)@ == old(db)@
                },
            },
    {
        let mut tables = db.take();
        if tables.next_rustacean_id > 0x7fff_ffff {
            db.put(tables);
            return Err(RepositoryError::SequenceExhausted);
        }
        let row = Rustacean {
            id: tables.next_rustacean_id as i32,
            name: new_rustacean.name,
            email: new_rustacean.email,
            created_at: now,
        };
        let created = row.clone();
        tables.rustaceans.push(row);
        tables.next_rustacean_id = tables.next_rustacean_id + 1;
        proof {
            let before = old(db)@;
            let after = tables@;
            assert(after.rustaceans =~= before.rustaceans.push(created@));
            assert(after == before.with_rustacean(created@));
            lemma_with_rustacean_wf(before, created@);
        }
        db.put(tables);
        Ok(created)
    }

    /// Overwrites the name and the email of the rustacean with key `id` by
    /// those of `rustacean`, whose own key and creation time are not read. It
    /// fails with `NotFound`, changing nothing, exactly where no row has the key.
    pub fn update(db: &mut Database, id: i32, rustacean: Rustacean) -> (updated: Result<
        Rustacean,
        RepositoryError,
    >)
        ensures
            match updated {
                Ok(row) => {
                    &&& old(db)@.has_rustacean(id as int)
                    &&& row@ == old(db)@.revised_rustacean(id as int, rustacean@)
                    &&& final(db)@ == old(db)@.with_rustacean_revised(id as int, rustacean@)
                },
                Err(e) => {
                    &&& e == RepositoryError::NotFound
                    &&& !old(db)@.has_rustacean(id as int)
                    &&& final(db)@ == old(db)@
                },
            },
    {
        let mut tables = db.take();
        match rustacean_position(&tables, id) {
            Some(i) => {
                let row = Rustacean {
                    id,
                    name: rustacean.name,
                    email: rustacean.email,
                    created_at: tables.rustaceans[i].created_at,
                };
                let updated = row.clone();
                tables.rustaceans.set(i, row);
                proof {
                    let before = old(db)@;
                    assert(tables@.rustaceans =~= before.rustaceans.update(i as int, updated@));
                    assert(tables@ == before.with_rustacean_revised(id as int, rustacean@));
                    lemma_with_rustacean_revised_wf(before, id as int, rustacean@);
                }
                db.put(tables);
                Ok(updated)
            },
            None => {
                db.put(tables);
                Err(RepositoryError::NotFound)
            },
        }
    }

    /// Removes the rustacean with key `id` and says how many rows went: one,
    /// or none where no row has the key. A rustacean who owns crates is not
    /// removed: the call fails with `ConstraintViolation` and changes nothing.
    pub fn delete(db: &mut Database, id: i32) -> (deleted: Result<usize, RepositoryError>)
        ensures
            match deleted {
                Ok(n) => {
                    &&& !old(db)@.owns_crates(id as int)
                    &&& final(db)@ == old(db)@.without_rustacean(id as int)
                    &&& n == if old(db)@.has_rustacean(id as int) { 1usize } else { 0usize }
                },
                Err(e) => {
                    &&& e == RepositoryError::ConstraintViolation
                    &&& old(db)@.owns_crates(id as int)
                    &&& final(db)@ == old(db)@
                },
            },
    {
        let mut tables = db.take();
        if owns_crates(&tables, id) {
            db.put(tables);
            return Err(RepositoryError::ConstraintViolation);
        }
        match rustacean_position(&tables, id) {
            Some(i) => {
                tables.rustaceans.remove(i);
                proof {
                    let before = old(db)@;
                    assert(tables@.rustaceans =~= before.rustaceans.remove(i as int));
                    assert(tables@ == before.without_rustacean(id as int));
                    lemma_without_rustacean_wf(before, id as int);
                }
                db.put(tables);
                Ok(1)
            },
            None => {
                db.put(tables);
                Ok(0)
            },
        }
    }
}

/// Whether some crate names `id` as its owner.
pub(crate) fn owns_crates(tables: &Tables, id: i32) -> (owns: bool)
    ensures
        owns == tables@.owns_crates(id as int),
{
    let rows = &tables.crates;
    let mut i: usize = 0;
    while i < rows.len()
        invariant
            i <= rows.len(),
            rows == &tables.crates,
            forall|k: int| 0 <= k < i ==> (#[trigger] tables@.crates[k]).rustacean_id != id,
        decreases rows.len() - i,
    {
        if rows[i].rustacean_id == id {
            assert(tables@.crates[i as int].rustacean_id == id);
            return true;
        }
        assert(tables@.crates[i as int].rustacean_id != id);
        i += 1;
    }
    false
}

/// Overwriting a row's name and email keeps the integrity rules.
pub proof fn lemma_with_rustacean_revised_wf(db: DatabaseView, id: int, payload: RustaceanView)
    requires
        db.wf(),
        db.has_rustacean(id),
    ensures
        db.with_rustacean_revised(id, payload).wf(),
{
    let after = db.with_rustacean_revised(id, payload);
    lemma_same_accounts_wf(db, after);
    assert forall|i: int| 0 <= i < after.crates.len() implies after.has_rustacean(
        (#[trigger] after.crates[i]).rustacean_id,
    ) by {
        let owner = db.crates[i].rustacean_id;
        assert(db.has_rustacean(owner));
        let k = db.rustacean_index(owner);
        assert(after.rustaceans[k].id == owner);
    }
}

/// Removing a rustacean who owns no crate keeps the integrity rules.
pub proof fn lemma_without_rustacean_wf(db: DatabaseView, id: int)
    requires
        db.wf(),
        !db.owns_crates(id),
    ensures
        db.without_rustacean(id).wf(),
{
    let after = db.without_rustacean(id);
    lemma_same_accounts_wf(db, after);
    if db.has_rustacean(id) {
        let gone = db.rustacean_index(id);
        assert forall|i: int| 0 <= i < after.crates.len() implies after.has_rustacean(
            (#[trigger] after.crates[i]).rustacean_id,
        ) by {
            let owner = db.crates[i].rustacean_id;
            assert(db.has_rustacean(owner));
            let k = db.rustacean_index(owner);
            assert(k != gone);
            if k < gone {
                assert(after.rustaceans[k].id == owner);
            } else {
                assert(after.rustaceans[k - 1].id == owner);
            }
        }
    }
}

/// A rustacean who has just been registered is found under the new key, as the
/// row that the registration returned, and that row carries the submitted name
/// and email.
pub proof fn lemma_create_then_find(db: DatabaseView, new: NewRustaceanView, now: int)
    requires
        db.wf(),
        db.next_rustacean_id <= max_id(),
    ensures
        ({
            let row = db.new_rustacean(new, now);
            let after = db.with_rustacean(row);
            &&& after.has_rustacean(row.id)
            &&& after.rustacean(row.id) == row
            &&& row.name == new.name
            &&& row.email == new.email
        }),
{
    let row = db.new_rustacean(new, now);
    let after = db.with_rustacean(row);
    lemma_with_rustacean_wf(db, row);
    assert(after.rustaceans[db.rustaceans.len() as int] == row);
}

/// The owner of a crate is a rustacean of the registry and counts as owning
/// crates, so that a request to remove that rustacean is refused for as long
/// as the crate is theirs.
pub proof fn lemma_owner_is_kept(db: DatabaseView, id: int, crate_id: int)
    requires
        db.wf(),
        db.has_crate(crate_id),
        db.crate_row(crate_id).rustacean_id == id,
    ensures
        db.owns_crates(id),
        db.has_rustacean(id),
{
    let at = db.crate_index(crate_id);
    assert(db.crates[at].rustacean_id == id);
}

/// Adding a rustacean under a key that was not handed out yet keeps the
/// integrity rules.
pub proof fn lemma_with_rustacean_wf(db: DatabaseView, row: RustaceanView)
    requires
        db.wf(),
        db.next_rustacean_id <= row.id <= max_id(),
    ensures
        db.with_rustacean(row).wf(),
{
    let after = db.with_rustacean(row);
    lemma_same_accounts_wf(db, after);
    assert forall|i: int| 0 <= i < after.crates.len() implies after.has_rustacean(
        (#[trigger] after.crates[i]).rustacean_id,
    ) by {
        let owner = db.crates[i].rustacean_id;
        assert(db.has_rustacean(owner));
        let k = db.rustacean_index(owner);
        assert(after.rustaceans[k].id == owner);
    }
}

} // verus!
