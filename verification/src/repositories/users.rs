//! Access to the table of accounts.

use vstd::prelude::*;
use crate::database::{Database, Tables};
use crate::errors::RepositoryError;
use crate::models::{views, NewUser, NewUserView, Role, User, UserRole, UserView};
use crate::repositories::roles::{role_code_position, roles_of};
use crate::schema::{
    assigned_to_other, assignments, keys, lemma_same_catalogue_wf, max_id, DatabaseView,
};

verus! {

/// The operations on accounts.
pub struct UserRepository;

/// The position of the row with key `id` in the table.
pub(crate) fn user_position(tables: &Tables, id: i32) -> (found: Option<usize>)
    requires
        tables@.wf(),
    ensures
        found.is_some() == tables@.has_user(id as int),
        found matches Some(i) ==> i < tables.users.len() && tables.users[i as int].id == id
            && tables@.user_index(id as int) == i,
{
    let rows = &tables.users;
    let mut i: usize = 0;
    while i < rows.len()
        invariant
            i <= rows.len(),
            rows == &tables.users,
            tables@.wf(),
            forall|k: int| 0 <= k < i ==> (#[trigger] tables@.users[k]).id != id,
        decreases rows.len() - i,
    {
        if rows[i].id == id {
            assert(tables@.users[i as int].id == id);
            return Some(i);
        }
        assert(tables@.users[i as int].id != id);
        i += 1;
    }
    None
}

/// Whether some account goes by `username`.
pub(crate) fn username_taken(tables: &Tables, username: &String) -> (taken: bool)
    ensures
        taken == tables@.has_username(username@),
{
    let rows = &tables.users;
    let mut i: usize = 0;
    while i < rows.len()
        invariant
            i <= rows.len(),
            rows == &tables.users,
            forall|k: int| 0 <= k < i ==> (#[trigger] tables@.users[k]).username != username@,
        decreases rows.len() - i,
    {
        if rows[i].username == *username {
            assert(tables@.users[i as int].username == username@);
            return true;
        }
        assert(tables@.users[i as int].username != username@);
        i += 1;
    }
    false
}

/// Whether `id` is among `ids`.
fn holds_key(ids: &Vec<i32>, id: i32) -> (held: bool)
    ensures
        held == keys(ids@).contains(id as int),
{
    let mut i: usize = 0;
    while i < ids.len()
        invariant
            i <= ids.len(),
            forall|k: int| 0 <= k < i ==> (#[trigger] keys(ids@)[k]) != id,
        decreases ids.len() - i,
    {
        if ids[i] == id {
            assert(keys(ids@)[i as int] == id);
            return true;
        }
        assert(keys(ids@)[i as int] != id);
        i += 1;
    }
    false
}

/// The keys of the roles that `role_codes` name, or the reason why they do
/// not resolve.
pub(crate) fn resolve_roles(tables: &Tables, role_codes: &Vec<String>) -> (resolved: Result<
    Vec<i32>,
    RepositoryError,
>)
    requires
        tables@.wf(),
    ensures
        match resolved {
            Ok(ids) => tables@.resolve_roles(views(role_codes@)) == Ok::<
                Seq<int>,
                RepositoryError,
            >(keys(ids@)),
            Err(e) => tables@.resolve_roles(views(role_codes@)) == Err::<
                Seq<int>,
                RepositoryError,
            >(e),
        },
{
    let ghost db = tables@;
    let ghost codes = views(role_codes@);
    let mut ids: Vec<i32> = Vec::new();
    let mut k: usize = 0;
    proof {
        assert(codes.take(0) =~= Seq::empty());
        assert(keys(ids@) =~= Seq::empty());
    }
    while k < role_codes.len()
        invariant
            k <= role_codes.len(),
            db == tables@,
            db.wf(),
            codes == views(role_codes@),
            db.resolve_roles(codes.take(k as int)) == Ok::<Seq<int>, RepositoryError>(keys(ids@)),
        decreases role_codes.len() - k,
    {
        let ghost upto = codes.take(k + 1);
        proof {
            assert(upto.drop_last() =~= codes.take(k as int));
            assert(upto.last() == role_codes[k as int]@);
        }
        match role_code_position(tables, &role_codes[k]) {
            None => {
                proof {
                    lemma_resolve_roles_error(db, codes, k + 1);
                }
                return Err(RepositoryError::NotFound);
            },
            Some(at) => {
                let id = tables.roles[at].id;
                assert(db.role_by_code(upto.last()).id == id);
                if holds_key(&ids, id) {
                    proof {
                        lemma_resolve_roles_error(db, codes, k + 1);
                    }
                    return Err(RepositoryError::ConstraintViolation);
                }
                let ghost so_far = keys(ids@);
                ids.push(id);
                assert(keys(ids@) =~= so_far.push(id as int));
            },
        }
        k += 1;
    }
    assert(codes.take(k as int) =~= codes);
    Ok(ids)
}

impl UserRepository {
    /// Opens an account and assigns it the roles that `role_codes` name, all
    /// of it or nothing. See [`DatabaseView::user_creation`] for the outcome:
    /// a user name that is taken, a code that names no role, a code that
    /// occurs twice and a table out of keys each fail and change nothing.
    pub fn create(db: &mut Database, new_user: NewUser, role_codes: Vec<String>) -> (created: Result<
        User,
        RepositoryError,
    >)
        ensures
            match created {
                Ok(user) => old(db)@.user_creation(new_user@, views(role_codes@)) == Ok::<
                    (DatabaseView, UserView),
                    RepositoryError,
                >((final(db)@, user@)),
                Err(e) => old(db)@.user_creation(new_user@, views(role_codes@)) == Err::<
                    (DatabaseView, UserView),
                    RepositoryError,
                >(e) && final(db)@ == old(db)@,
            },
    {
        let mut tables = db.take();
        let ghost before = tables@;
        if username_taken(&tables, &new_user.username) {
            db.put(tables);
            return Err(RepositoryError::ConstraintViolation);
        }
        let role_ids = match resolve_roles(&tables, &role_codes) {
            Ok(role_ids) => role_ids,
            Err(e) => {
                db.put(tables);
                return Err(e);
            },
        };
        if tables.next_user_id > 0x7fff_ffff {
            db.put(tables);
            return Err(RepositoryError::SequenceExhausted);
        }
        let user_id: i32 = tables.next_user_id as i32;
        let row = User { id: user_id, username: new_user.username, password: new_user.password };
        let created = row.clone();
        tables.users.push(row);
        tables.next_user_id = tables.next_user_id + 1;
        let ghost with_row = tables@;
        let mut k: usize = 0;
        proof {
            assert(with_row.users =~= before.users.push(created@));
            assert(assignments(user_id as int, keys(role_ids@).take(0)) =~= Seq::empty());
            assert(views(tables.user_roles@) =~= before.user_roles + assignments(
                user_id as int,
                keys(role_ids@).take(0),
            ));
        }
        while k < role_ids.len()
            invariant
                k <= role_ids.len(),
                tables@ == (DatabaseView { user_roles: tables@.user_roles, ..with_row }),
                views(tables.user_roles@) == before.user_roles + assignments(
                    user_id as int,
                    keys(role_ids@).take(k as int),
                ),
            decreases role_ids.len() - k,
        {
            let ghost so_far = views(tables.user_roles@);
            tables.user_roles.push(UserRole { user_id, role_id: role_ids[k] });
            proof {
                assert(views(tables.user_roles@) =~= so_far.push(
                    tables.user_roles[tables.user_roles.len() - 1]@,
                ));
                assert(views(tables.user_roles@) =~= before.user_roles + assignments(
                    user_id as int,
                    keys(role_ids@).take(k + 1),
                ));
            }
            k += 1;
        }
        proof {
            assert(keys(role_ids@).take(k as int) =~= keys(role_ids@));
            assert(tables@ == before.with_user(created@, keys(role_ids@)));
            lemma_resolved_roles(before, views(role_codes@));
            lemma_with_user_wf(before, created@, keys(role_ids@));
        }
        db.put(tables);
        Ok(created)
    }

    /// Every account with the roles it holds: the accounts by ascending key,
    /// the roles of each in the order in which they were assigned.
    pub fn find_with_roles(db: &Database) -> (found: Vec<(User, Vec<Role>)>)
        ensures
            found.len() == db@.users.len(),
            forall|i: int|
                0 <= i < found.len() ==> (#[trigger] found[i]).0@ == db@.users[i] && views(
                    found[i].1@,
                ) == db@.roles_of(db@.users[i].id),
    {
        proof {
            use_type_invariant(db);
        }
        let tables = &db.tables;
        let mut found: Vec<(User, Vec<Role>)> = Vec::new();
        let mut i: usize = 0;
        while i < tables.users.len()
            invariant
                i <= tables.users.len(),
                tables@.wf(),
                found.len() == i,
                forall|k: int|
                    0 <= k < i ==> (#[trigger] found[k]).0@ == tables@.users[k] && views(
                        found[k].1@,
                    ) == tables@.roles_of(tables@.users[k].id),
            decreases tables.users.len() - i,
        {
            let user = tables.users[i].clone();
            let held = roles_of(tables, user.id);
            found.push((user, held));
            i += 1;
        }
        found
    }

    /// Removes the account with key `id` together with its role assignments
    /// and says how many accounts went: one, or none where no row has the key.
    pub fn delete(db: &mut Database, id: i32) -> (deleted: usize)
        ensures
            final(db)@ == old(db)@.without_user(id as int),
            deleted == if old(db)@.has_user(id as int) { 1usize } else { 0usize },
    {
        let mut tables = db.take();
        let ghost before = tables@;
        let at = user_position(&tables, id);
        let mut kept: Vec<UserRole> = Vec::new();
        let mut k: usize = 0;
        proof {
            assert(before.user_roles.take(0) =~= Seq::empty());
            assert(views(kept@) =~= before.user_roles.take(0).filter(assigned_to_other(id as int)));
        }
        while k < tables.user_roles.len()
            invariant
                k <= tables.user_roles.len(),
                views(tables.user_roles@) == before.user_roles,
                views(kept@) == before.user_roles.take(k as int).filter(
                    assigned_to_other(id as int),
                ),
            decreases tables.user_roles.len() - k,
        {
            let ghost seen = before.user_roles.take(k as int);
            let ghost next = before.user_roles[k as int];
            let ghost so_far = views(kept@);
            proof {
                assert(before.user_roles.take(k + 1) =~= seen.push(next));
                seen.lemma_filter_push(next, assigned_to_other(id as int));
                assert(next == tables.user_roles[k as int]@);
            }
            if tables.user_roles[k].user_id != id {
                kept.push(tables.user_roles[k].clone());
                assert(assigned_to_other(id as int)(next));
                assert(views(kept@) =~= so_far.push(next));
            } else {
                assert(!assigned_to_other(id as int)(next));
            }
            k += 1;
        }
        assert(before.user_roles.take(k as int) =~= before.user_roles);
        tables.user_roles = kept;
        let deleted: usize = match at {
            Some(i) => {
                tables.users.remove(i);
                assert(tables@.users =~= before.users.remove(i as int));
                1
            },
            None => 0,
        };
        proof {
            assert(tables@ == before.without_user(id as int));
            lemma_without_user_wf(before, id as int);
        }
        db.put(tables);
        deleted
    }
}

/// Once an account is open, no second account can take its user name: the
/// second creation fails with `ConstraintViolation`, whatever roles it asks for.
pub proof fn lemma_username_is_unique(
    db: DatabaseView,
    first: NewUserView,
    first_codes: Seq<Seq<char>>,
    second: NewUserView,
    second_codes: Seq<Seq<char>>,
)
    requires
        db.wf(),
        db.user_creation(first, first_codes) is Ok,
        second.username == first.username,
    ensures
        ({
            let after = db.with_user(db.new_user(first), db.resolved_roles(first_codes));
            &&& db.user_creation(first, first_codes) == Ok::<
                (DatabaseView, UserView),
                RepositoryError,
            >((after, db.new_user(first)))
            &&& after.user_creation(second, second_codes) == Err::<
                (DatabaseView, UserView),
                RepositoryError,
            >(RepositoryError::ConstraintViolation)
        }),
{
    let after = db.with_user(db.new_user(first), db.resolved_roles(first_codes));
    assert(after.users[db.users.len() as int].username == second.username);
}

/// Codes that do not resolve up to some point do not resolve as a whole, and
/// for the same reason.
pub proof fn lemma_resolve_roles_error(db: DatabaseView, codes: Seq<Seq<char>>, upto: int)
    requires
        0 <= upto <= codes.len(),
        db.resolve_roles(codes.take(upto)) is Err,
    ensures
        db.resolve_roles(codes) == db.resolve_roles(codes.take(upto)),
    decreases codes.len() - upto,
{
    if upto == codes.len() {
        assert(codes.take(upto) =~= codes);
    } else {
        assert(codes.take(upto + 1).drop_last() =~= codes.take(upto));
        lemma_resolve_roles_error(db, codes, upto + 1);
    }
}

/// Codes that resolve give one key for each code: that of the role that goes
/// by the code. The keys are those of roles of the registry, and no key occurs
/// twice.
pub proof fn lemma_resolved_roles(db: DatabaseView, codes: Seq<Seq<char>>)
    requires
        db.wf(),
        db.resolve_roles(codes) is Ok,
    ensures
        db.resolved_roles(codes).len() == codes.len(),
        forall|k: int|
            #![trigger codes[k]]
            #![trigger db.resolved_roles(codes)[k]]
            0 <= k < codes.len() ==> db.has_role_code(codes[k]) && db.resolved_roles(codes)[k]
                == db.role_by_code(codes[k]).id && db.has_role(db.resolved_roles(codes)[k]),
        forall|i: int, j: int|
            0 <= i < j < codes.len() ==> (#[trigger] db.resolved_roles(codes)[i]) != (
            #[trigger] db.resolved_roles(codes)[j]),
    decreases codes.len(),
{
    if codes.len() > 0 {
        let front = codes.drop_last();
        lemma_resolved_roles(db, front);
        let ids = db.resolved_roles(codes);
        let at = db.role_code_index(codes.last());
        assert(db.roles[at].id == db.role_by_code(codes.last()).id);
        assert(ids =~= db.resolved_roles(front).push(db.role_by_code(codes.last()).id));
        assert forall|k: int|
            #![trigger codes[k]]
            #![trigger ids[k]]
            0 <= k < codes.len() implies db.has_role_code(codes[k]) && ids[k] == db.role_by_code(
            codes[k],
        ).id && db.has_role(ids[k]) by {
            if k < front.len() {
                assert(codes[k] == front[k]);
                assert(ids[k] == db.resolved_roles(front)[k]);
            }
        }
        assert forall|i: int, j: int| 0 <= i < j < codes.len() implies (#[trigger] ids[i]) != (
        #[trigger] ids[j]) by {
            if j == codes.len() - 1 {
                assert(db.resolved_roles(front)[i] == ids[i]);
                assert(db.resolved_roles(front).contains(ids[i]));
            }
        }
    }
}

/// Adding an account under a key that was not handed out yet, with a user
/// name of its own and with distinct roles of the registry, keeps the
/// integrity rules.
pub proof fn lemma_with_user_wf(db: DatabaseView, row: UserView, role_ids: Seq<int>)
    requires
        db.wf(),
        db.next_user_id <= row.id <= max_id(),
        !db.has_username(row.username),
        forall|k: int| 0 <= k < role_ids.len() ==> db.has_role(#[trigger] role_ids[k]),
        forall|i: int, j: int|
            0 <= i < j < role_ids.len() ==> (#[trigger] role_ids[i]) != (#[trigger] role_ids[j]),
    ensures
        db.with_user(row, role_ids).wf(),
{
    let after = db.with_user(row, role_ids);
    let old_len = db.user_roles.len() as int;
    lemma_same_catalogue_wf(db, after);
    assert forall|i: int, j: int| 0 <= i < j < after.users.len() implies (
    #[trigger] after.users[i]).id < (#[trigger] after.users[j]).id by {
        if j < db.users.len() {
            assert(db.users[i].id < db.users[j].id);
        } else {
            assert(db.users[i].id < db.next_user_id);
        }
    }
    assert forall|i: int, j: int| 0 <= i < j < after.users.len() implies (
    #[trigger] after.users[i]).username != (#[trigger] after.users[j]).username by {
        if j < db.users.len() {
            assert(db.users[i].username != db.users[j].username);
        } else {
            assert(db.users[i].username != row.username);
        }
    }
    assert forall|i: int| 0 <= i < after.user_roles.len() implies after.has_user(
        (#[trigger] after.user_roles[i]).user_id,
    ) && after.has_role(after.user_roles[i].role_id) by {
        let a = after.user_roles[i];
        if i < old_len {
            assert(a == db.user_roles[i]);
            assert(db.has_user(a.user_id) && db.has_role(a.role_id));
            assert(after.users[db.user_index(a.user_id)].id == a.user_id);
        } else {
            assert(a == assignments(row.id, role_ids)[i - old_len]);
            assert(db.has_role(role_ids[i - old_len]));
            assert(after.users[db.users.len() as int].id == a.user_id);
        }
        assert(after.roles[db.role_index(a.role_id)].id == a.role_id);
    }
    assert forall|i: int, j: int| 0 <= i < j < after.user_roles.len() implies (
    #[trigger] after.user_roles[i]) != (#[trigger] after.user_roles[j]) by {
        if j < old_len {
            assert(db.user_roles[i] != db.user_roles[j]);
        } else if i < old_len {
            let a = db.user_roles[i];
            assert(after.user_roles[i] == a);
            assert(after.user_roles[j] == assignments(row.id, role_ids)[j - old_len]);
            assert(db.has_user(a.user_id));
            assert(db.users[db.user_index(a.user_id)].id < db.next_user_id);
        } else {
            assert(after.user_roles[i] == assignments(row.id, role_ids)[i - old_len]);
            assert(after.user_roles[j] == assignments(row.id, role_ids)[j - old_len]);
            assert(role_ids[i - old_len] != role_ids[j - old_len]);
        }
    }
}

/// Rows that are pairwise distinct stay so when some of them are left out.
pub proof fn lemma_filter_distinct<T>(rows: Seq<T>, keep: spec_fn(T) -> bool)
    requires
        forall|i: int, j: int| 0 <= i < j < rows.len() ==> (#[trigger] rows[i]) != (#[trigger] rows[j]),
    ensures
        forall|i: int, j: int|
            0 <= i < j < rows.filter(keep).len() ==> (#[trigger] rows.filter(keep)[i]) != (
            #[trigger] rows.filter(keep)[j]),
    decreases rows.len(),
{
    rows.lemma_filter_len(keep);
    if rows.len() > 0 {
        let front = rows.drop_last();
        let last = rows.last();
        assert forall|i: int, j: int| 0 <= i < j < front.len() implies (#[trigger] front[i]) != (
        #[trigger] front[j]) by {
            assert(rows[i] != rows[j]);
        }
        lemma_filter_distinct(front, keep);
        assert(rows =~= front.push(last));
        front.lemma_filter_push(last, keep);
        if keep(last) {
            let kept = front.filter(keep);
            assert forall|i: int| 0 <= i < kept.len() implies (#[trigger] kept[i]) != last by {
                if kept[i] == last {
                    assert(kept.contains(last));
                    front.lemma_filter_contains_rev(keep, last);
                    let j = choose|j: int| 0 <= j < front.len() && front[j] == last;
                    assert(rows[j] != rows[rows.len() - 1]);
                }
            }
        }
    }
}

/// Removing an account together with its role assignments keeps the
/// integrity rules.
pub proof fn lemma_without_user_wf(db: DatabaseView, id: int)
    requires
        db.wf(),
    ensures
        db.without_user(id).wf(),
{
    let after = db.without_user(id);
    let other = assigned_to_other(id);
    lemma_same_catalogue_wf(db, after);
    lemma_filter_distinct(db.user_roles, other);
    if db.has_user(id) {
        let gone = db.user_index(id);
        assert forall|i: int| 0 <= i < after.users.len() implies 1 <= (#[trigger] after.users[i]).id
            < after.next_user_id by {
            let from = if i < gone { i } else { i + 1 };
            assert(after.users[i] == db.users[from]);
        }
        assert forall|i: int, j: int| 0 <= i < j < after.users.len() implies (
        #[trigger] after.users[i]).id < (#[trigger] after.users[j]).id && after.users[i].username
            != after.users[j].username by {
            let from_i = if i < gone { i } else { i + 1 };
            let from_j = if j < gone { j } else { j + 1 };
            assert(after.users[i] == db.users[from_i]);
            assert(after.users[j] == db.users[from_j]);
        }
    }
    assert forall|i: int| 0 <= i < after.user_roles.len() implies after.has_user(
        (#[trigger] after.user_roles[i]).user_id,
    ) && after.has_role(after.user_roles[i].role_id) by {
        let a = after.user_roles[i];
        db.user_roles.lemma_filter_pred(other, i);
        assert(db.user_roles.filter(other).contains(a));
        db.user_roles.lemma_filter_contains_rev(other, a);
        let from = choose|from: int| 0 <= from < db.user_roles.len() && db.user_roles[from] == a;
        assert(db.has_user(db.user_roles[from].user_id) && db.has_role(db.user_roles[from].role_id));
        assert(after.roles[db.role_index(a.role_id)].id == a.role_id);
        let holder = db.user_index(a.user_id);
        if db.has_user(id) {
            let gone = db.user_index(id);
            assert(holder != gone);
            if holder < gone {
                assert(after.users[holder].id == a.user_id);
            } else {
                assert(after.users[holder - 1].id == a.user_id);
            }
        } else {
            assert(after.users[holder].id == a.user_id);
        }
    }
}

} // verus!
