//! The records of the registry and their mathematical views.
//!
//! Every record type has a view in which integers are unbounded and text is a
//! sequence of characters; contracts throughout the crate speak of these views.
//! Timestamps are microseconds since the Unix epoch.

use vstd::prelude::*;

verus! {

/// The views of a sequence of records, in the same order.
pub open spec fn views<T: View>(rows: Seq<T>) -> Seq<T::V> {
    Seq::new(rows.len(), |i: int| rows[i]@)
}

/// A person who may own crates.
#[derive(Debug, PartialEq, Eq)]
pub struct Rustacean {
    pub id: i32,
    pub name: String,
    pub email: String,
    pub created_at: i64,
}

/// The mathematical value of a [`Rustacean`].
pub struct RustaceanView {
    pub id: int,
    pub name: Seq<char>,
    pub email: Seq<char>,
    pub created_at: int,
}

impl View for Rustacean {
    type V = RustaceanView;

    open spec fn view(&self) -> RustaceanView {
        RustaceanView {
            id: self.id as int,
            name: self.name@,
            email: self.email@,
            created_at: self.created_at as int,
        }
    }
}

impl Clone for Rustacean {
    fn clone(&self) -> (copy: Self)
        ensures
            copy@ == self@,
    {
        Rustacean {
            id: self.id,
            name: self.name.clone(),
            email: self.email.clone(),
            created_at: self.created_at,
        }
    }
}

/// The fields a caller supplies to register a rustacean.
#[derive(Debug, PartialEq, Eq)]
pub struct NewRustacean {
    pub name: String,
    pub email: String,
}

/// The mathematical value of a [`NewRustacean`].
pub struct NewRustaceanView {
    pub name: Seq<char>,
    pub email: Seq<char>,
}

impl View for NewRustacean {
    type V = NewRustaceanView;

    open spec fn view(&self) -> NewRustaceanView {
        NewRustaceanView {
            name: self.name@,
            email: self.email@,
        }
    }
}

impl Clone for NewRustacean {
    fn clone(&self) -> (copy: Self)
        ensures
            copy@ == self@,
    {
        NewRustacean {
            name: self.name.clone(),
            email: self.email.clone(),
        }
    }
}

/// A published item, owned by exactly one rustacean at a time.
#[derive(Debug, PartialEq, Eq)]
pub struct Crate {
    pub id: i32,
    pub rustacean_id: i32,
    pub code: String,
    pub name: String,
    pub version: String,
    pub description: String,
    pub created_at: i64,
}

/// The mathematical value of a [`Crate`].
pub struct CrateView {
    pub id: int,
    pub rustacean_id: int,
    pub code: Seq<char>,
    pub name: Seq<char>,
    pub version: Seq<char>,
    pub description: Seq<char>,
    pub created_at: int,
}

impl View for Crate {
    type V = CrateView;

    open spec fn view(&self) -> CrateView {
        CrateView {
            id: self.id as int,
            rustacean_id: self.rustacean_id as int,
            code: self.code@,
            name: self.name@,
            version: self.version@,
            description: self.description@,
            created_at: self.created_at as int,
        }
    }
}

impl Clone for Crate {
    fn clone(&self) -> (copy: Self)
        ensures
            copy@ == self@,
    {
        Crate {
            id: self.id,
            rustacean_id: self.rustacean_id,
            code: self.code.clone(),
            name: self.name.clone(),
            version: self.version.clone(),
            description: self.description.clone(),
            created_at: self.created_at,
        }
    }
}

/// The fields a caller supplies to publish a crate.
#[derive(Debug, PartialEq, Eq)]
pub struct NewCrate {
    pub rustacean_id: i32,
    pub code: String,
    pub name: String,
    pub version: String,
    pub description: String,
}

/// The mathematical value of a [`NewCrate`].
pub struct NewCrateView {
    pub rustacean_id: int,
    pub code: Seq<char>,
    pub name: Seq<char>,
    pub version: Seq<char>,
    pub description: Seq<char>,
}

impl View for NewCrate {
    type V = NewCrateView;

    open spec fn view(&self) -> NewCrateView {
        NewCrateView {
            rustacean_id: self.rustacean_id as int,
            code: self.code@,
            name: self.name@,
            version: self.version@,
            description: self.description@,
        }
    }
}

impl Clone for NewCrate {
    fn clone(&self) -> (copy: Self)
        ensures
            copy@ == self@,
    {
        NewCrate {
            rustacean_id: self.rustacean_id,
            code: self.code.clone(),
            name: self.name.clone(),
            version: self.version.clone(),
            description: self.description.clone(),
        }
    }
}

/// An account; `password` holds the encoded hash, never the password itself.
#[derive(Debug, PartialEq, Eq)]
pub struct User {
    pub id: i32,
    pub username: String,
    pub password: String,
}

/// The mathematical value of a [`User`].
pub struct UserView {
    pub id: int,
    pub username: Seq<char>,
    pub password: Seq<char>,
}

impl View for User {
    type V = UserView;

    open spec fn view(&self) -> UserView {
        UserView {
            id: self.id as int,
            username: self.username@,
            password: self.password@,
        }
    }
}

impl Clone for User {
    fn clone(&self) -> (copy: Self)
        ensures
            copy@ == self@,
    {
        User {
            id: self.id,
            username: self.username.clone(),
            password: self.password.clone(),
        }
    }
}

/// The fields a caller supplies to open an account.
#[derive(Debug, PartialEq, Eq)]
pub struct NewUser {
    pub username: String,
    pub password: String,
}

/// The mathematical value of a [`NewUser`].
pub struct NewUserView {
    pub username: Seq<char>,
    pub password: Seq<char>,
}

impl View for NewUser {
    type V = NewUserView;

    open spec fn view(&self) -> NewUserView {
        NewUserView {
            username: self.username@,
            password: self.password@,
        }
    }
}

impl Clone for NewUser {
    fn clone(&self) -> (copy: Self)
        ensures
            copy@ == self@,
    {
        NewUser {
            username: self.username.clone(),
            password: self.password.clone(),
        }
    }
}

/// A permission role, identified by its short unique code.
#[derive(Debug, PartialEq, Eq)]
pub struct Role {
    pub id: i32,
    pub code: String,
    pub name: String,
}

/// The mathematical value of a [`Role`].
pub struct RoleView {
    pub id: int,
    pub code: Seq<char>,
    pub name: Seq<char>,
}

impl View for Role {
    type V = RoleView;

    open spec fn view(&self) -> RoleView {
        RoleView {
            id: self.id as int,
            code: self.code@,
            name: self.name@,
        }
    }
}

impl Clone for Role {
    fn clone(&self) -> (copy: Self)
        ensures
            copy@ == self@,
    {
        Role {
            id: self.id,
            code: self.code.clone(),
            name: self.name.clone(),
        }
    }
}

/// The fields a caller supplies to define a role.
#[derive(Debug, PartialEq, Eq)]
pub struct NewRole {
    pub code: String,
    pub name: String,
}

/// The mathematical value of a [`NewRole`].
pub struct NewRoleView {
    pub code: Seq<char>,
    pub name: Seq<char>,
}

impl View for NewRole {
    type V = NewRoleView;

    open spec fn view(&self) -> NewRoleView {
        NewRoleView {
            code: self.code@,
            name: self.name@,
        }
    }
}

impl Clone for NewRole {
    fn clone(&self) -> (copy: Self)
        ensures
            copy@ == self@,
    {
        NewRole {
            code: self.code.clone(),
            name: self.name.clone(),
        }
    }
}

/// The assignment of one role to one user.
#[derive(Debug, PartialEq, Eq)]
pub struct UserRole {
    pub user_id: i32,
    pub role_id: i32,
}

/// The mathematical value of a [`UserRole`].
pub struct UserRoleView {
    pub user_id: int,
    pub role_id: int,
}

impl View for UserRole {
    type V = UserRoleView;

    open spec fn view(&self) -> UserRoleView {
        UserRoleView {
            user_id: self.user_id as int,
            role_id: self.role_id as int,
        }
    }
}

impl Clone for UserRole {
    fn clone(&self) -> (copy: Self)
        ensures
            copy@ == self@,
    {
        UserRole {
            user_id: self.user_id,
            role_id: self.role_id,
        }
    }
}

} // verus!
