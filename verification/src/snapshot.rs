//! Moving the rows of a registry in and out.
//!
//! A program that keeps the registry in a store of its own reads the rows from
//! there, puts them into a [`Database`] one by one, works on it, and takes the
//! rows out again. Rows that are put in carry their keys; a row that would
//! break an integrity rule is refused.

use vstd::prelude::*;
use crate::database::{Database, Tables};
use crate::models::{views, Crate, Role, Rustacean, User, UserRole, UserRoleView};
use crate::repositories::crates::lemma_with_crate_wf;
use crate::repositories::roles::{lemma_with_role_wf, role_code_position, role_position};
use crate::repositories::rustaceans::{lemma_with_rustacean_wf, rustacean_position};
use crate::repositories::users::{lemma_with_user_wf, user_position, username_taken};
use crate::schema::{lemma_same_catalogue_wf, max_id, raised, DatabaseView};

verus! {

/// The rows of the five tables.
#[derive(Debug, PartialEq, Eq)]
pub struct Rows {
    pub rustaceans: Vec<Rustacean>,
    pub crates: Vec<Crate>,
    pub users: Vec<User>,
    pub roles: Vec<Role>,
    pub user_roles: Vec<UserRole>,
}

/// The key that each keyed table hands out next.
#[derive(Debug, Clone, Copy, PartialEq, Eq, Structural)]
pub struct NextKeys {
    pub rustaceans: i64,
    pub crates: i64,
    pub users: i64,
    pub roles: i64,
}

/// The state of a database sequence whose next key is `next`: the value it
/// holds, and whether that value was already handed out. A sequence that
/// has handed out the largest key holds it as handed out; a next key below 1
/// counts as 1.
pub open spec fn state_of_next(next: int) -> (int, bool) {
    if next > max_id() {
        (max_id(), true)
    } else if next < 1 {
        (1, false)
    } else {
        (next, false)
    }
}

/// The key that a database sequence hands out next, from the value it holds
/// and whether that value was already handed out. The largest 64-bit value
/// has no successor and stands for itself.
pub open spec fn next_of_state(last_value: int, is_called: bool) -> int {
    if is_called && last_value < i64::MAX {
        last_value + 1
    } else {
        last_value
    }
}

/// The state in which to leave a database sequence so that it hands out
/// `next` next.
pub fn sequence_state(next: i64) -> (state: (i64, bool))
    ensures
        (state.0 as int, state.1) == state_of_next(next as int),
{
    if next > 0x7fff_ffff {
        (0x7fff_ffff, true)
    } else if next < 1 {
        (1, false)
    } else {
        (next, false)
    }
}

/// The key that a database sequence in the given state hands out next.
pub fn sequence_next(last_value: i64, is_called: bool) -> (next: i64)
    ensures
        next == next_of_state(last_value as int, is_called),
{
    if is_called && last_value < i64::MAX {
        last_value + 1
    } else {
        last_value
    }
}

/// A sequence left in the state of a next key hands out that key next.
pub proof fn lemma_sequence_round_trip(next: int)
    requires
        1 <= next <= max_id() + 1,
    ensures
        next_of_state(state_of_next(next).0, state_of_next(next).1) == next,
{
}

/// The larger of a next key and the one asked for, which is cut off at the
/// key after the largest.
fn raise(current: i64, to: i64) -> (next: i64)
    requires
        1 <= current <= max_id() + 1,
    ensures
        next == raised(current as int, to as int),
{
    if to <= current {
        current
    } else if to <= 0x8000_0000 {
        to
    } else {
        0x8000_0000
    }
}

/// Whether the account and the role of `a` are already joined.
fn assignment_present(tables: &Tables, a: &UserRole) -> (present: bool)
    ensures
        present == tables@.has_assignment(a@),
{
    let rows = &tables.user_roles;
    let mut i: usize = 0;
    while i < rows.len()
        invariant
            i <= rows.len(),
            rows == &tables.user_roles,
            forall|k: int| 0 <= k < i ==> (#[trigger] tables@.user_roles[k]) != a@,
        decreases rows.len() - i,
    {
        if rows[i].user_id == a.user_id && rows[i].role_id == a.role_id {
            assert(tables@.user_roles[i as int] == a@);
            return true;
        }
        assert(tables@.user_roles[i as int] != a@);
        i += 1;
    }
    false
}

impl Database {
    /// Puts in a rustacean under the key it carries. The row is refused, and
    /// nothing changes, exactly where its key is below the next key of the
    /// table.
    pub fn restore_rustacean(&mut self, row: Rustacean) -> (restored: bool)
        ensures
            restored == (old(self)@.next_rustacean_id <= row.id),
            final(self)@ == if restored {
                old(self)@.with_rustacean(row@)
            } else {
                old(self)@
            },
    {
        let mut tables = self.take();
        if (row.id as i64) < tables.next_rustacean_id {
            self.put(tables);
            return false;
        }
        tables.next_rustacean_id = row.id as i64 + 1;
        tables.rustaceans.push(row);
        proof {
            let before = old(self)@;
            assert(tables@.rustaceans =~= before.rustaceans.push(row@));
            assert(tables@ == before.with_rustacean(row@));
            lemma_with_rustacean_wf(before, row@);
        }
        self.put(tables);
        true
    }

    /// Puts in a crate under the key it carries. The row is refused, and
    /// nothing changes, exactly where its key is below the next key of the
    /// table or its owner is no rustacean of the registry.
    pub fn restore_crate(&mut self, row: Crate) -> (restored: bool)
        ensures
            restored == (old(self)@.next_crate_id <= row.id && old(self)@.has_rustacean(
                row.rustacean_id as int,
            )),
            final(self)@ == if restored {
                old(self)@.with_crate(row@)
            } else {
                old(self)@
            },
    {
        let mut tables = self.take();
        if (row.id as i64) < tables.next_crate_id || rustacean_position(
            &tables,
            row.rustacean_id,
        ).is_none() {
            self.put(tables);
            return false;
        }
        tables.next_crate_id = row.id as i64 + 1;
        tables.crates.push(row);
        proof {
            let before = old(self)@;
            assert(tables@.crates =~= before.crates.push(row@));
            assert(tables@ == before.with_crate(row@));
            lemma_with_crate_wf(before, row@);
        }
        self.put(tables);
        true
    }

    /// Puts in a role under the key it carries. The row is refused, and
    /// nothing changes, exactly where its key is below the next key of the
    /// table or its code is taken.
    pub fn restore_role(&mut self, row: Role) -> (restored: bool)
        ensures
            restored == (old(self)@.next_role_id <= row.id && !old(self)@.has_role_code(row.code@)),
            final(self)@ == if restored {
                old(self)@.with_role(row@)
            } else {
                old(self)@
            },
    {
        let mut tables = self.take();
        if (row.id as i64) < tables.next_role_id || role_code_position(&tables, &row.code).is_some() {
            self.put(tables);
            return false;
        }
        tables.next_role_id = row.id as i64 + 1;
        tables.roles.push(row);
        proof {
            let before = old(self)@;
            assert(tables@.roles =~= before.roles.push(row@));
            assert(tables@ == before.with_role(row@));
            lemma_with_role_wf(before, row@);
        }
        self.put(tables);
        true
    }

    /// Puts in an account under the key it carries, with no roles. The row is
    /// refused, and nothing changes, exactly where its key is below the next
    /// key of the table or its user name is taken.
    pub fn restore_user(&mut self, row: User) -> (restored: bool)
        ensures
            restored == (old(self)@.next_user_id <= row.id && !old(self)@.has_username(
                row.username@,
            )),
            final(self)@ == if restored {
                old(self)@.with_user(row@, Seq::empty())
            } else {
                old(self)@
            },
    {
        let mut tables = self.take();
        if (row.id as i64) < tables.next_user_id || username_taken(&tables, &row.username) {
            self.put(tables);
            return false;
        }
        tables.next_user_id = row.id as i64 + 1;
        tables.users.push(row);
        proof {
            let before = old(self)@;
            assert(tables@.users =~= before.users.push(row@));
            assert(tables@.user_roles =~= before.with_user(row@, Seq::empty()).user_roles);
            assert(tables@ == before.with_user(row@, Seq::empty()));
            lemma_with_user_wf(before, row@, Seq::empty());
        }
        self.put(tables);
        true
    }

    /// Puts in a role assignment. It is refused, and nothing changes, exactly
    /// where its account or its role is not in the registry or the two are
    /// already joined.
    pub fn restore_user_role(&mut self, row: UserRole) -> (restored: bool)
        ensures
            restored == (old(self)@.has_user(row.user_id as int) && old(self)@.has_role(
                row.role_id as int,
            ) && !old(self)@.has_assignment(row@)),
            final(self)@ == if restored {
                old(self)@.with_assignment(row@)
            } else {
                old(self)@
            },
    {
        let mut tables = self.take();
        if user_position(&tables, row.user_id).is_none() || role_position(
            &tables,
            row.role_id,
        ).is_none() || assignment_present(&tables, &row) {
            self.put(tables);
            return false;
        }
        tables.user_roles.push(row);
        proof {
            let before = old(self)@;
            assert(tables@.user_roles =~= before.user_roles.push(row@));
            assert(tables@ == before.with_assignment(row@));
            lemma_with_assignment_wf(before, row@);
        }
        self.put(tables);
        true
    }

    /// The key that each keyed table hands out next.
    pub fn next_keys(&self) -> (keys: NextKeys)
        ensures
            keys.rustaceans == self@.next_rustacean_id,
            keys.crates == self@.next_crate_id,
            keys.users == self@.next_user_id,
            keys.roles == self@.next_role_id,
    {
        NextKeys {
            rustaceans: self.tables.next_rustacean_id,
            crates: self.tables.next_crate_id,
            users: self.tables.next_user_id,
            roles: self.tables.next_role_id,
        }
    }

    /// Sees to it that no table hands out a key below the one given for it,
    /// so that keys of rows that are gone are not handed out again.
    pub fn advance_keys(&mut self, to: NextKeys)
        ensures
            final(self)@ == old(self)@.with_keys_raised(
                to.rustaceans as int,
                to.crates as int,
                to.users as int,
                to.roles as int,
            ),
    {
        let mut tables = self.take();
        tables.next_rustacean_id = raise(tables.next_rustacean_id, to.rustaceans);
        tables.next_crate_id = raise(tables.next_crate_id, to.crates);
        tables.next_user_id = raise(tables.next_user_id, to.users);
        tables.next_role_id = raise(tables.next_role_id, to.roles);
        proof {
            lemma_keys_raised_wf(
                old(self)@,
                to.rustaceans as int,
                to.crates as int,
                to.users as int,
                to.roles as int,
            );
        }
        self.put(tables);
    }

    /// Takes the rows out, each table in the order of the registry.
    pub fn into_rows(self) -> (rows: Rows)
        ensures
            views(rows.rustaceans@) == self@.rustaceans,
            views(rows.crates@) == self@.crates,
            views(rows.users@) == self@.users,
            views(rows.roles@) == self@.roles,
            views(rows.user_roles@) == self@.user_roles,
    {
        let tables = self.tables;
        Rows {
            rustaceans: tables.rustaceans,
            crates: tables.crates,
            users: tables.users,
            roles: tables.roles,
            user_roles: tables.user_roles,
        }
    }
}

/// Raising the next keys keeps the integrity rules.
pub proof fn lemma_keys_raised_wf(
    db: DatabaseView,
    rustaceans: int,
    crates: int,
    users: int,
    roles: int,
)
    requires
        db.wf(),
    ensures
        db.with_keys_raised(rustaceans, crates, users, roles).wf(),
{
    let after = db.with_keys_raised(rustaceans, crates, users, roles);
    assert forall|i: int| 0 <= i < after.crates.len() implies after.has_rustacean(
        (#[trigger] after.crates[i]).rustacean_id,
    ) by {
        let owner = db.crates[i].rustacean_id;
        assert(db.has_rustacean(owner));
        assert(after.rustaceans[db.rustacean_index(owner)].id == owner);
    }
    assert forall|i: int| 0 <= i < after.user_roles.len() implies after.has_user(
        (#[trigger] after.user_roles[i]).user_id,
    ) && after.has_role(after.user_roles[i].role_id) by {
        let a = db.user_roles[i];
        assert(db.has_user(a.user_id) && db.has_role(a.role_id));
        assert(after.users[db.user_index(a.user_id)].id == a.user_id);
        assert(after.roles[db.role_index(a.role_id)].id == a.role_id);
    }
}

/// Joining an account and a role of the registry that are not yet joined
/// keeps the integrity rules.
pub proof fn lemma_with_assignment_wf(db: DatabaseView, a: UserRoleView)
    requires
        db.wf(),
        db.has_user(a.user_id),
        db.has_role(a.role_id),
        !db.has_assignment(a),
    ensures
        db.with_assignment(a).wf(),
{
    let after = db.with_assignment(a);
    lemma_same_catalogue_wf(db, after);
    assert forall|i: int| 0 <= i < after.user_roles.len() implies after.has_user(
        (#[trigger] after.user_roles[i]).user_id,
    ) && after.has_role(after.user_roles[i].role_id) by {
        let row = after.user_roles[i];
        if i < db.user_roles.len() {
            assert(row == db.user_roles[i]);
        }
        assert(db.has_user(row.user_id) && db.has_role(row.role_id));
        assert(after.users[db.user_index(row.user_id)].id == row.user_id);
        assert(after.roles[db.role_index(row.role_id)].id == row.role_id);
    }
    assert forall|i: int, j: int| 0 <= i < j < after.user_roles.len() implies (
    #[trigger] after.user_roles[i]) != (#[trigger] after.user_roles[j]) by {
        if j < db.user_roles.len() {
            assert(db.user_roles[i] != db.user_roles[j]);
        } else {
            assert(db.user_roles[i] != a);
        }
    }
}

} // verus!
