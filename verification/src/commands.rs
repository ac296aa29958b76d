//! The commands of the account administrator.

use vstd::prelude::*;
use crate::database::Database;
use crate::errors::RepositoryError;
use crate::models::{views, NewUser, NewUserView, Role, RoleView, User, UserView};
use crate::password::{argon2_phc, generate_salt, hash_password, usable_salt};
use crate::repositories::{RoleRepository, UserRepository};
use crate::schema::DatabaseView;

verus! {

/// Why a command can fail.
#[derive(Debug, Clone, Copy, PartialEq, Eq, Structural)]
pub enum CommandError {
    /// The password could not be hashed.
    Hashing,
    /// The registry refused the change.
    Repository(RepositoryError),
}

/// What opening an account comes to, given what hashing the password gave:
/// the new state and the new row, or the reason why nothing changes. The
/// account stores the hash as its password.
pub open spec fn registration(
    db: DatabaseView,
    username: Seq<char>,
    hashed: Option<Seq<char>>,
    codes: Seq<Seq<char>>,
) -> Result<(DatabaseView, UserView), CommandError> {
    match hashed {
        None => Err(CommandError::Hashing),
        Some(phc) => match db.user_creation(NewUserView { username, password: phc }, codes) {
            Ok(done) => Ok(done),
            Err(e) => Err(CommandError::Repository(e)),
        },
    }
}

/// Whether `created` and the state `after` are what [`registration`] gives.
/// On success `created` holds the new row and the roles it was given; on
/// failure the state is the one before.
pub open spec fn registered(
    before: DatabaseView,
    after: DatabaseView,
    username: Seq<char>,
    hashed: Option<Seq<char>>,
    codes: Seq<Seq<char>>,
    created: Result<(User, Vec<Role>), CommandError>,
) -> bool {
    match created {
        Ok((user, roles)) => {
            &&& registration(before, username, hashed, codes) == Ok::<
                (DatabaseView, UserView),
                CommandError,
            >((after, user@))
            &&& views(roles@) == after.roles_of(user.id as int)
        },
        Err(e) => {
            &&& registration(before, username, hashed, codes) == Err::<
                (DatabaseView, UserView),
                CommandError,
            >(e)
            &&& after == before
        },
    }
}

/// The view of the outcome of hashing.
pub open spec fn hash_view(hashed: Option<String>) -> Option<Seq<char>> {
    match hashed {
        Some(phc) => Some(phc@),
        None => None,
    }
}

/// Opens the account `username` with an already hashed password and the
/// roles that `role_codes` name, and returns the account with its roles.
/// `hashed` is the outcome of hashing: `None` fails with `Hashing`.
pub fn register_user(
    db: &mut Database,
    username: String,
    hashed: Option<String>,
    role_codes: Vec<String>,
) -> (created: Result<(User, Vec<Role>), CommandError>)
    ensures
        registered(old(db)@, final(db)@, username@, hash_view(hashed), views(role_codes@), created),
{
    let password = match hashed {
        Some(phc) => phc,
        None => {
            return Err(CommandError::Hashing);
        },
    };
    let new_user = NewUser { username, password };
    match UserRepository::create(db, new_user, role_codes) {
        Ok(user) => {
            let roles = RoleRepository::find_by_user(db, &user);
            Ok((user, roles))
        },
        Err(e) => Err(CommandError::Repository(e)),
    }
}

/// Opens the account `username`: hashes `password` with Argon2 under a fresh
/// random salt, stores the hash, assigns the roles that `role_codes` name and
/// returns the account with its roles.
///
/// Where a salt is drawn, it is one under which every password of ordinary
/// length hashes, and the outcome is that of [`register_user`] for the hash
/// under that salt. Where the operating system supplies no random bytes, the
/// command fails with `Hashing` and nothing changes.
pub fn create_user(
    db: &mut Database,
    username: String,
    password: String,
    role_codes: Vec<String>,
) -> (created: Result<(User, Vec<Role>), CommandError>)
    ensures
        (exists|salt: Seq<char>|
            usable_salt(salt) && registered(
                old(db)@,
                final(db)@,
                username@,
                #[trigger] argon2_phc(password@, salt),
                views(role_codes@),
                created,
            )) || (created matches Err(CommandError::Hashing) && final(db)@ == old(db)@),
{
    let salt = match generate_salt() {
        Some(salt) => salt,
        None => {
            return Err(CommandError::Hashing);
        },
    };
    let hashed = hash_password(password.as_str(), salt.as_str());
    let created = register_user(db, username, hashed, role_codes);
    assert(hash_view(hashed) == argon2_phc(password@, salt@));
    created
}

/// Every account with the roles it holds: the accounts by ascending key, the
/// roles of each in the order in which they were assigned.
pub fn list_users(db: &Database) -> (listed: Vec<(User, Vec<Role>)>)
    ensures
        listed.len() == db@.users.len(),
        forall|i: int|
            0 <= i < listed.len() ==> (#[trigger] listed[i]).0@ == db@.users[i] && views(
                listed[i].1@,
            ) == db@.roles_of(db@.users[i].id),
{
    UserRepository::find_with_roles(db)
}

/// Removes the account with key `id` together with its role assignments;
/// nothing changes where no account has the key.
pub fn delete_user(db: &mut Database, id: i32)
    ensures
        final(db)@ == old(db)@.without_user(id as int),
{
    UserRepository::delete(db, id);
}

} // verus!
