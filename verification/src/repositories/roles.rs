//! Access to the table of roles and to the roles that accounts hold.

use vstd::prelude::*;
use crate::database::{Database, Tables};
use crate::errors::RepositoryError;
use crate::models::{views, NewRole, Role, RoleView, User};
use crate::schema::{assigned_to, lemma_same_catalogue_wf, max_id, DatabaseView};

verus! {

/// The operations on roles.
pub struct RoleRepository;

/// The position of the row with key `id` in the table.
pub(crate) fn role_position(tables: &Tables, id: i32) -> (found: Option<usize>)
    requires
        tables@.wf(),
    ensures
        found.is_some() == tables@.has_role(id as int),
        found matches Some(i) ==> i < tables.roles.len() && tables.roles[i as int].id == id
            && tables@.role_index(id as int) == i,
{
    let rows = &tables.roles;
    let mut i: usize = 0;
    while i < rows.len()
        invariant
            i <= rows.len(),
            rows == &tables.roles,
            tables@.wf(),
            forall|k: int| 0 <= k < i ==> (#[trigger] tables@.roles[k]).id != id,
        decreases rows.len() - i,
    {
        if rows[i].id == id {
            assert(tables@.roles[i as int].id == id);
            return Some(i);
        }
        assert(tables@.roles[i as int].id != id);
        i += 1;
    }
    None
}

/// The position of the role that goes by `code`.
pub(crate) fn role_code_position(tables: &Tables, code: &String) -> (found: Option<usize>)
    requires
        tables@.wf(),
    ensures
        found.is_some() == tables@.has_role_code(code@),
        found matches Some(i) ==> i < tables.roles.len() && tables.roles[i as int].code@ == code@
            && tables@.role_code_index(code@) == i,
{
    let rows = &tables.roles;
    let mut i: usize = 0;
    while i < rows.len()
        invariant
            i <= rows.len(),
            rows == &tables.roles,
            tables@.wf(),
            forall|k: int| 0 <= k < i ==> (#[trigger] tables@.roles[k]).code != code@,
        decreases rows.len() - i,
    {
        if rows[i].code == *code {
            assert(tables@.roles[i as int].code == code@);
            return Some(i);
        }
        assert(tables@.roles[i as int].code != code@);
        i += 1;
    }
    None
}

/// The roles that the account with key `user_id` holds, in the order in which
/// they were assigned.
pub(crate) fn roles_of(tables: &Tables, user_id: i32) -> (held: Vec<Role>)
    requires
        tables@.wf(),
    ensures
        views(held@) == tables@.roles_of(user_id as int),
{
    let assigned = &tables.user_roles;
    let ghost db = tables@;
    let mut held: Vec<Role> = Vec::new();
    let mut k: usize = 0;
    assert(db.user_roles.take(0) =~= Seq::empty());
    assert(views(held@) =~= db.roles_among(db.user_roles.take(0), user_id as int));
    while k < assigned.len()
        invariant
            k <= assigned.len(),
            assigned == &tables.user_roles,
            db == tables@,
            db.wf(),
            views(held@) == db.roles_among(db.user_roles.take(k as int), user_id as int),
        decreases assigned.len() - k,
    {
        let ghost seen = db.user_roles.take(k as int);
        let ghost next = db.user_roles[k as int];
        proof {
            assert(db.user_roles.take(k + 1) =~= seen.push(next));
            seen.lemma_filter_push(next, assigned_to(user_id as int));
        }
        if assigned[k].user_id == user_id {
            let ghost so_far = views(held@);
            let at = role_position(tables, assigned[k].role_id);
            assert(db.has_role(next.role_id));
            let role = tables.roles[at.unwrap()].clone();
            held.push(role);
            proof {
                let kept = seen.filter(assigned_to(user_id as int));
                assert(assigned_to(user_id as int)(next));
                assert(role@ == db.roles[db.role_index(next.role_id)]);
                assert(kept.push(next).map_values(db.role_assigned()) =~= kept.map_values(
                    db.role_assigned(),
                ).push(db.role(next.role_id)));
                assert(views(held@) =~= so_far.push(role@));
            }
        } else {
            assert(!assigned_to(user_id as int)(next));
        }
        k += 1;
    }
    assert(db.user_roles.take(k as int) =~= db.user_roles);
    held
}

impl RoleRepository {
    /// The roles that `user` holds, in the order in which they were assigned.
    pub fn find_by_user(db: &Database, user: &User) -> (held: Vec<Role>)
        ensures
            views(held@) == db@.roles_of(user.id as int),
    {
        proof {
            use_type_invariant(db);
        }
        roles_of(&db.tables, user.id)
    }

    /// The role that goes by `code`; `NotFound` exactly where there is none.
    pub fn find_by_code(db: &Database, code: &String) -> (found: Result<Role, RepositoryError>)
        ensures
            match found {
                Ok(row) => db@.has_role_code(code@) && row@ == db@.role_by_code(code@),
                Err(e) => e == RepositoryError::NotFound && !db@.has_role_code(code@),
            },
    {
        proof {
            use_type_invariant(db);
        }
        match role_code_position(&db.tables, code) {
            Some(i) => Ok(db.tables.roles[i].clone()),
            None => Err(RepositoryError::NotFound),
        }
    }

    /// Defines a role under the next key. It fails, changing nothing, with
    /// `ConstraintViolation` where the code is taken, and otherwise with
    /// `SequenceExhausted` where the keys have run out.
    pub fn create(db: &mut Database, new_role: NewRole) -> (created: Result<Role, RepositoryError>)
        ensures
            match created {
                Ok(row) => {
                    &&& !old(db)@.has_role_code(new_role.code@)
                    &&& old(db)@.next_role_id <= max_id()
                    &&& row@ == old(db)@.new_role(new_role@)
                    &&& final(db)@ == old(db)@.with_role(row@)
                },
                Err(e) => {
                    &&& final(db)@ == old(db)@
                    &&& e == if old(db)@.has_role_code(new_role.code@) {
                        RepositoryError::ConstraintViolation
                    } else {
                        RepositoryError::SequenceExhausted
                    }
                    &&& old(db)@.has_role_code(new_role.code@) || old(db)@.next_role_id > max_id()
                },
            },
    {
        let mut tables = db.take();
        if role_code_position(&tables, &new_role.code).is_some() {
            db.put(tables);
            return Err(RepositoryError::ConstraintViolation);
        }
        if tables.next_role_id > 0x7fff_ffff {
            db.put(tables);
            return Err(RepositoryError::SequenceExhausted);
        }
        let row = Role { id: tables.next_role_id as i32, code: new_role.code, name: new_role.name };
        let created = row.clone();
        tables.roles.push(row);
        tables.next_role_id = tables.next_role_id + 1;
        proof {
            let before = old(db)@;
            assert(tables@.roles =~= before.roles.push(created@));
            assert(tables@ == before.with_role(created@));
            lemma_with_role_wf(before, created@);
        }
        db.put(tables);
        Ok(created)
    }
}

/// Adding a role under a key that was not handed out yet and with a code of
/// its own keeps the integrity rules.
pub proof fn lemma_with_role_wf(db: DatabaseView, row: RoleView)
    requires
        db.wf(),
        db.next_role_id <= row.id <= max_id(),
        !db.has_role_code(row.code),
    ensures
        db.with_role(row).wf(),
{
    let after = db.with_role(row);
    lemma_same_catalogue_wf(db, after);
    assert forall|i: int, j: int| 0 <= i < j < after.roles.len() implies (
    #[trigger] after.roles[i]).id < (#[trigger] after.roles[j]).id by {
        if j < db.roles.len() {
            assert(db.roles[i].id < db.roles[j].id);
        } else {
            assert(db.roles[i].id < db.next_role_id);
        }
    }
    assert forall|i: int, j: int| 0 <= i < j < after.roles.len() implies (
    #[trigger] after.roles[i]).code != (#[trigger] after.roles[j]).code by {
        if j < db.roles.len() {
            assert(db.roles[i].code != db.roles[j].code);
        } else {
            assert(db.roles[i].code != row.code);
        }
    }
    assert forall|i: int| 0 <= i < after.user_roles.len() implies after.has_user(
        (#[trigger] after.user_roles[i]).user_id,
    ) && after.has_role(after.user_roles[i].role_id) by {
        let a = db.user_roles[i];
        assert(db.has_user(a.user_id) && db.has_role(a.role_id));
        assert(after.users[db.user_index(a.user_id)].id == a.user_id);
        assert(after.roles[db.role_index(a.role_id)].id == a.role_id);
    }
}

} // verus!
