//! The relational state of the registry as a mathematical value: five tables,
//! the key that each keyed table hands out next, and the integrity rules that
//! hold between them.
//!
//! Every operation of the crate is specified as a function on this state.

use vstd::prelude::*;
use crate::errors::RepositoryError;
use crate::models::{
    CrateView, NewCrateView, NewRoleView, NewRustaceanView, NewUserView, RoleView, RustaceanView,
    UserRoleView, UserView,
};

verus! {

/// The tables of the registry. Keyed tables list their rows by ascending key.
pub struct DatabaseView {
    pub rustaceans: Seq<RustaceanView>,
    pub crates: Seq<CrateView>,
    pub users: Seq<UserView>,
    pub roles: Seq<RoleView>,
    pub user_roles: Seq<UserRoleView>,
    pub next_rustacean_id: int,
    pub next_crate_id: int,
    pub next_user_id: int,
    pub next_role_id: int,
}

/// The first `limit` rows of a table, or all of them where there are fewer.
pub open spec fn prefix<T>(rows: Seq<T>, limit: int) -> Seq<T> {
    rows.subrange(0, if limit < rows.len() { limit } else { rows.len() as int })
}

/// The next key `current` raised to `to`, but not beyond the key after the
/// largest, and not lowered.
pub open spec fn raised(current: int, to: int) -> int {
    if to <= current {
        current
    } else if to <= max_id() + 1 {
        to
    } else {
        max_id() + 1
    }
}

/// The largest key a table can hand out.
pub open spec fn max_id() -> int {
    0x7fff_ffff
}

impl DatabaseView {
    /// The state with no rows, in which every table hands out key 1 first.
    pub open spec fn empty() -> DatabaseView {
        DatabaseView {
            rustaceans: Seq::empty(),
            crates: Seq::empty(),
            users: Seq::empty(),
            roles: Seq::empty(),
            user_roles: Seq::empty(),
            next_rustacean_id: 1,
            next_crate_id: 1,
            next_user_id: 1,
            next_role_id: 1,
        }
    }

    // ----- rustaceans -----

    /// Some rustacean has the key `id`.
    pub open spec fn has_rustacean(self, id: int) -> bool {
        exists|i: int| 0 <= i < self.rustaceans.len() && (#[trigger] self.rustaceans[i]).id == id
    }

    /// The position of the row with key `id`, where there is one.
    pub open spec fn rustacean_index(self, id: int) -> int {
        choose|i: int| 0 <= i < self.rustaceans.len() && (#[trigger] self.rustaceans[i]).id == id
    }

    /// The rustacean with key `id`, where there is one.
    pub open spec fn rustacean(self, id: int) -> RustaceanView {
        self.rustaceans[self.rustacean_index(id)]
    }

    /// Some crate names `id` as its owner.
    pub open spec fn owns_crates(self, id: int) -> bool {
        exists|i: int| 0 <= i < self.crates.len() && (#[trigger] self.crates[i]).rustacean_id == id
    }

    /// The rules on rustaceans: keys ascend from 1 and lie below the next key.
    pub open spec fn rustaceans_wf(self) -> bool {
        &&& 1 <= self.next_rustacean_id <= max_id() + 1
        &&& forall|i: int|
            0 <= i < self.rustaceans.len() ==> 1 <= (#[trigger] self.rustaceans[i]).id
                < self.next_rustacean_id
        &&& forall|i: int, j: int|
            0 <= i < j < self.rustaceans.len() ==> (#[trigger] self.rustaceans[i]).id < (
            #[trigger] self.rustaceans[j]).id
    }

    /// The row that registering `new` at time `now` adds.
    pub open spec fn new_rustacean(self, new: NewRustaceanView, now: int) -> RustaceanView {
        RustaceanView { id: self.next_rustacean_id, name: new.name, email: new.email, created_at: now }
    }

    /// The state with one more rustacean; the table hands out the key after
    /// the row's next.
    pub open spec fn with_rustacean(self, row: RustaceanView) -> DatabaseView {
        DatabaseView {
            rustaceans: self.rustaceans.push(row),
            next_rustacean_id: row.id + 1,
            ..self
        }
    }

    /// The row with key `id` after an update with `payload`: the name and the
    /// email are taken from the payload, the key and the creation time stay.
    pub open spec fn revised_rustacean(self, id: int, payload: RustaceanView) -> RustaceanView {
        RustaceanView { name: payload.name, email: payload.email, ..self.rustacean(id) }
    }

    /// The state after the rustacean with key `id` was overwritten with `payload`.
    pub open spec fn with_rustacean_revised(self, id: int, payload: RustaceanView) -> DatabaseView {
        DatabaseView {
            rustaceans: self.rustaceans.update(
                self.rustacean_index(id),
                self.revised_rustacean(id, payload),
            ),
            ..self
        }
    }

    /// The state without the row with key `id`; the same state where no row has it.
    pub open spec fn without_rustacean(self, id: int) -> DatabaseView {
        if self.has_rustacean(id) {
            DatabaseView { rustaceans: self.rustaceans.remove(self.rustacean_index(id)), ..self }
        } else {
            self
        }
    }

    // ----- crates -----

    /// Some crate has the key `id`.
    pub open spec fn has_crate(self, id: int) -> bool {
        exists|i: int| 0 <= i < self.crates.len() && (#[trigger] self.crates[i]).id == id
    }

    /// The position of the row with key `id`, where there is one.
    pub open spec fn crate_index(self, id: int) -> int {
        choose|i: int| 0 <= i < self.crates.len() && (#[trigger] self.crates[i]).id == id
    }

    /// The crate with key `id`, where there is one.
    pub open spec fn crate_row(self, id: int) -> CrateView {
        self.crates[self.crate_index(id)]
    }

    /// The rules on crates: keys ascend from 1 and lie below the next key, and
    /// every owner is a rustacean.
    pub open spec fn crates_wf(self) -> bool {
        &&& 1 <= self.next_crate_id <= max_id() + 1
        &&& forall|i: int|
            0 <= i < self.crates.len() ==> 1 <= (#[trigger] self.crates[i]).id < self.next_crate_id
        &&& forall|i: int, j: int|
            0 <= i < j < self.crates.len() ==> (#[trigger] self.crates[i]).id < (
            #[trigger] self.crates[j]).id
        &&& forall|i: int|
            0 <= i < self.crates.len() ==> self.has_rustacean((#[trigger] self.crates[i]).rustacean_id)
    }

    /// The row that publishing `new` at time `now` adds.
    pub open spec fn new_crate(self, new: NewCrateView, now: int) -> CrateView {
        CrateView {
            id: self.next_crate_id,
            rustacean_id: new.rustacean_id,
            code: new.code,
            name: new.name,
            version: new.version,
            description: new.description,
            created_at: now,
        }
    }

    /// The state with one more crate; the table hands out the key after the
    /// row's next.
    pub open spec fn with_crate(self, row: CrateView) -> DatabaseView {
        DatabaseView { crates: self.crates.push(row), next_crate_id: row.id + 1, ..self }
    }

    /// The row with key `id` after an update with `payload`: everything but the
    /// key and the creation time is taken from the payload, the owner included.
    pub open spec fn revised_crate(self, id: int, payload: CrateView) -> CrateView {
        CrateView { id: self.crate_row(id).id, created_at: self.crate_row(id).created_at, ..payload }
    }

    /// The state after the crate with key `id` was overwritten with `payload`.
    pub open spec fn with_crate_revised(self, id: int, payload: CrateView) -> DatabaseView {
        DatabaseView {
            crates: self.crates.update(self.crate_index(id), self.revised_crate(id, payload)),
            ..self
        }
    }

    /// The state after an update of the crate with key `id` was asked for: the
    /// row is overwritten where it exists and the owner named is a rustacean,
    /// and nothing changes otherwise.
    pub open spec fn after_crate_update(self, id: int, payload: CrateView) -> DatabaseView {
        if self.has_crate(id) && self.has_rustacean(payload.rustacean_id) {
            self.with_crate_revised(id, payload)
        } else {
            self
        }
    }

    /// The state without the row with key `id`; the same state where no row has it.
    pub open spec fn without_crate(self, id: int) -> DatabaseView {
        if self.has_crate(id) {
            DatabaseView { crates: self.crates.remove(self.crate_index(id)), ..self }
        } else {
            self
        }
    }

    /// The crates whose owner is `owner`, by ascending key.
    pub open spec fn crates_of(self, owner: int) -> Seq<CrateView> {
        self.crates.filter(|c: CrateView| c.rustacean_id == owner)
    }

    // ----- users -----

    /// Some account has the key `id`.
    pub open spec fn has_user(self, id: int) -> bool {
        exists|i: int| 0 <= i < self.users.len() && (#[trigger] self.users[i]).id == id
    }

    /// The position of the row with key `id`, where there is one.
    pub open spec fn user_index(self, id: int) -> int {
        choose|i: int| 0 <= i < self.users.len() && (#[trigger] self.users[i]).id == id
    }

    /// The account with key `id`, where there is one.
    pub open spec fn user(self, id: int) -> UserView {
        self.users[self.user_index(id)]
    }

    /// Some account goes by `username`.
    pub open spec fn has_username(self, username: Seq<char>) -> bool {
        exists|i: int| 0 <= i < self.users.len() && (#[trigger] self.users[i]).username == username
    }

    /// The rules on accounts: keys ascend from 1 and lie below the next key, and
    /// no two accounts share a user name.
    pub open spec fn users_wf(self) -> bool {
        &&& 1 <= self.next_user_id <= max_id() + 1
        &&& forall|i: int|
            0 <= i < self.users.len() ==> 1 <= (#[trigger] self.users[i]).id < self.next_user_id
        &&& forall|i: int, j: int|
            0 <= i < j < self.users.len() ==> (#[trigger] self.users[i]).id < (
            #[trigger] self.users[j]).id
        &&& forall|i: int, j: int|
            0 <= i < j < self.users.len() ==> (#[trigger] self.users[i]).username != (
            #[trigger] self.users[j]).username
    }

    /// The row that opening the account `new` adds.
    pub open spec fn new_user(self, new: NewUserView) -> UserView {
        UserView { id: self.next_user_id, username: new.username, password: new.password }
    }

    /// The state with one more account, which holds the roles `role_ids`.
    pub open spec fn with_user(self, row: UserView, role_ids: Seq<int>) -> DatabaseView {
        DatabaseView {
            users: self.users.push(row),
            user_roles: self.user_roles + assignments(row.id, role_ids),
            next_user_id: row.id + 1,
            ..self
        }
    }

    /// The keys of the roles that `codes` name, in the order of the codes. The
    /// codes are taken one by one: the first that names no role fails with
    /// `NotFound`, the first that repeats an earlier one with
    /// `ConstraintViolation`.
    pub open spec fn resolve_roles(self, codes: Seq<Seq<char>>) -> Result<Seq<int>, RepositoryError>
        decreases codes.len(),
    {
        if codes.len() == 0 {
            Ok(Seq::empty())
        } else {
            match self.resolve_roles(codes.drop_last()) {
                Err(e) => Err(e),
                Ok(ids) => if !self.has_role_code(codes.last()) {
                    Err(RepositoryError::NotFound)
                } else if ids.contains(self.role_by_code(codes.last()).id) {
                    Err(RepositoryError::ConstraintViolation)
                } else {
                    Ok(ids.push(self.role_by_code(codes.last()).id))
                },
            }
        }
    }

    /// The keys that `codes` resolve to; no keys where they do not resolve.
    pub open spec fn resolved_roles(self, codes: Seq<Seq<char>>) -> Seq<int> {
        match self.resolve_roles(codes) {
            Ok(role_ids) => role_ids,
            Err(_) => Seq::empty(),
        }
    }

    /// What opening the account `new` with the roles that `codes` name comes
    /// to: the new state and the new row, or the reason why nothing changes.
    /// A user name that is taken fails with `ConstraintViolation`; then the
    /// codes are resolved; then the key is handed out, if one is left.
    pub open spec fn user_creation(self, new: NewUserView, codes: Seq<Seq<char>>) -> Result<
        (DatabaseView, UserView),
        RepositoryError,
    > {
        if self.has_username(new.username) {
            Err(RepositoryError::ConstraintViolation)
        } else {
            match self.resolve_roles(codes) {
                Err(e) => Err(e),
                Ok(role_ids) => if self.next_user_id > max_id() {
                    Err(RepositoryError::SequenceExhausted)
                } else {
                    Ok((self.with_user(self.new_user(new), role_ids), self.new_user(new)))
                },
            }
        }
    }

    /// The state without the account with key `id` and without its role
    /// assignments.
    pub open spec fn without_user(self, id: int) -> DatabaseView {
        DatabaseView {
            users: if self.has_user(id) {
                self.users.remove(self.user_index(id))
            } else {
                self.users
            },
            user_roles: self.user_roles.filter(assigned_to_other(id)),
            ..self
        }
    }

    // ----- roles -----

    /// Some role has the key `id`.
    pub open spec fn has_role(self, id: int) -> bool {
        exists|i: int| 0 <= i < self.roles.len() && (#[trigger] self.roles[i]).id == id
    }

    /// The position of the row with key `id`, where there is one.
    pub open spec fn role_index(self, id: int) -> int {
        choose|i: int| 0 <= i < self.roles.len() && (#[trigger] self.roles[i]).id == id
    }

    /// The role with key `id`, where there is one.
    pub open spec fn role(self, id: int) -> RoleView {
        self.roles[self.role_index(id)]
    }

    /// Some role goes by `code`.
    pub open spec fn has_role_code(self, code: Seq<char>) -> bool {
        exists|i: int| 0 <= i < self.roles.len() && (#[trigger] self.roles[i]).code == code
    }

    /// The position of the role that goes by `code`, where there is one.
    pub open spec fn role_code_index(self, code: Seq<char>) -> int {
        choose|i: int| 0 <= i < self.roles.len() && (#[trigger] self.roles[i]).code == code
    }

    /// The role that goes by `code`, where there is one.
    pub open spec fn role_by_code(self, code: Seq<char>) -> RoleView {
        self.roles[self.role_code_index(code)]
    }

    /// The rules on roles: keys ascend from 1 and lie below the next key, and no
    /// two roles share a code.
    pub open spec fn roles_wf(self) -> bool {
        &&& 1 <= self.next_role_id <= max_id() + 1
        &&& forall|i: int|
            0 <= i < self.roles.len() ==> 1 <= (#[trigger] self.roles[i]).id < self.next_role_id
        &&& forall|i: int, j: int|
            0 <= i < j < self.roles.len() ==> (#[trigger] self.roles[i]).id < (
            #[trigger] self.roles[j]).id
        &&& forall|i: int, j: int|
            0 <= i < j < self.roles.len() ==> (#[trigger] self.roles[i]).code != (
            #[trigger] self.roles[j]).code
    }

    /// The row that defining the role `new` adds.
    pub open spec fn new_role(self, new: NewRoleView) -> RoleView {
        RoleView { id: self.next_role_id, code: new.code, name: new.name }
    }

    /// The state with one more role; the table hands out the key after the
    /// row's next.
    pub open spec fn with_role(self, row: RoleView) -> DatabaseView {
        DatabaseView { roles: self.roles.push(row), next_role_id: row.id + 1, ..self }
    }

    // ----- role assignments -----

    /// The rules on role assignments: each joins an account and a role of the
    /// registry, and none occurs twice.
    pub open spec fn user_roles_wf(self) -> bool {
        &&& forall|i: int|
            0 <= i < self.user_roles.len() ==> self.has_user((#[trigger] self.user_roles[i]).user_id)
                && self.has_role(self.user_roles[i].role_id)
        &&& forall|i: int, j: int|
            0 <= i < j < self.user_roles.len() ==> (#[trigger] self.user_roles[i]) != (
            #[trigger] self.user_roles[j])
    }

    /// The account and the role of `a` are joined.
    pub open spec fn has_assignment(self, a: UserRoleView) -> bool {
        exists|i: int| 0 <= i < self.user_roles.len() && #[trigger] self.user_roles[i] == a
    }

    /// The state with one more role assignment.
    pub open spec fn with_assignment(self, a: UserRoleView) -> DatabaseView {
        DatabaseView { user_roles: self.user_roles.push(a), ..self }
    }

    /// The roles that the account with key `user_id` holds, in the order in
    /// which they were assigned.
    pub open spec fn roles_of(self, user_id: int) -> Seq<RoleView> {
        self.roles_among(self.user_roles, user_id)
    }

    /// The roles that `assigned` gives to the account with key `user_id`.
    pub open spec fn roles_among(self, assigned: Seq<UserRoleView>, user_id: int) -> Seq<RoleView> {
        assigned.filter(assigned_to(user_id)).map_values(self.role_assigned())
    }

    /// The role that a role assignment gives.
    pub open spec fn role_assigned(self) -> spec_fn(UserRoleView) -> RoleView {
        |a: UserRoleView| self.role(a.role_id)
    }

    // ----- the whole state -----

    /// The integrity rules. In every keyed table the keys ascend and lie below
    /// the next key to be handed out. Every crate's owner is a rustacean. No
    /// two accounts share a user name and no two roles a code. Every role
    /// assignment joins an account and a role of the registry, and none
    /// occurs twice.
    pub open spec fn wf(self) -> bool {
        &&& self.rustaceans_wf()
        &&& self.crates_wf()
        &&& self.users_wf()
        &&& self.roles_wf()
        &&& self.user_roles_wf()
    }

    /// The state in which no keyed table hands out a key below the one given
    /// for it: a next key is raised to the one given, but not beyond the key
    /// after the largest, and it is never lowered.
    pub open spec fn with_keys_raised(
        self,
        rustaceans: int,
        crates: int,
        users: int,
        roles: int,
    ) -> DatabaseView {
        DatabaseView {
            next_rustacean_id: raised(self.next_rustacean_id, rustaceans),
            next_crate_id: raised(self.next_crate_id, crates),
            next_user_id: raised(self.next_user_id, users),
            next_role_id: raised(self.next_role_id, roles),
            ..self
        }
    }

    /// The two states hold the same rustaceans and crates.
    pub open spec fn same_catalogue(self, other: DatabaseView) -> bool {
        &&& self.rustaceans == other.rustaceans
        &&& self.crates == other.crates
        &&& self.next_rustacean_id == other.next_rustacean_id
        &&& self.next_crate_id == other.next_crate_id
    }

    /// The two states hold the same accounts, roles and role assignments.
    pub open spec fn same_accounts(self, other: DatabaseView) -> bool {
        &&& self.users == other.users
        &&& self.roles == other.roles
        &&& self.user_roles == other.user_roles
        &&& self.next_user_id == other.next_user_id
        &&& self.next_role_id == other.next_role_id
    }
}

/// The rules on rustaceans and crates carry over to a state that holds the
/// same rustaceans and crates.
pub proof fn lemma_same_catalogue_wf(before: DatabaseView, after: DatabaseView)
    requires
        before.rustaceans_wf(),
        before.crates_wf(),
        before.same_catalogue(after),
    ensures
        after.rustaceans_wf(),
        after.crates_wf(),
{
    assert forall|i: int| 0 <= i < after.crates.len() implies after.has_rustacean(
        (#[trigger] after.crates[i]).rustacean_id,
    ) by {
        let owner = before.crates[i].rustacean_id;
        assert(before.has_rustacean(owner));
        assert(after.rustaceans[before.rustacean_index(owner)].id == owner);
    }
}

/// The rules on accounts, roles and role assignments carry over to a state
/// that holds the same accounts, roles and role assignments.
pub proof fn lemma_same_accounts_wf(before: DatabaseView, after: DatabaseView)
    requires
        before.users_wf(),
        before.roles_wf(),
        before.user_roles_wf(),
        before.same_accounts(after),
    ensures
        after.users_wf(),
        after.roles_wf(),
        after.user_roles_wf(),
{
    assert forall|i: int| 0 <= i < after.user_roles.len() implies after.has_user(
        (#[trigger] after.user_roles[i]).user_id,
    ) && after.has_role(after.user_roles[i].role_id) by {
        let a = before.user_roles[i];
        assert(before.has_user(a.user_id) && before.has_role(a.role_id));
        assert(after.users[before.user_index(a.user_id)].id == a.user_id);
        assert(after.roles[before.role_index(a.role_id)].id == a.role_id);
    }
}

/// A column of keys as mathematical integers.
pub open spec fn keys(ids: Seq<i32>) -> Seq<int> {
    Seq::new(ids.len(), |k: int| ids[k] as int)
}

/// Whether a role assignment is one of the account with key `user_id`.
pub open spec fn assigned_to(user_id: int) -> spec_fn(UserRoleView) -> bool {
    |a: UserRoleView| a.user_id == user_id
}

/// Whether a role assignment is one of another account than that with key
/// `user_id`.
pub open spec fn assigned_to_other(user_id: int) -> spec_fn(UserRoleView) -> bool {
    |a: UserRoleView| a.user_id != user_id
}

/// The assignment of each of `role_ids` to the account with key `user_id`.
pub open spec fn assignments(user_id: int, role_ids: Seq<int>) -> Seq<UserRoleView> {
    Seq::new(role_ids.len(), |k: int| UserRoleView { user_id, role_id: role_ids[k] })
}

} // verus!
