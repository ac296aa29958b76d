//! Data access, one repository for each kind of record.
//!
//! A repository is a set of associated functions on a [`crate::database::Database`].
//! Each function either makes the whole change that its contract describes or
//! leaves the registry as it was.

pub mod crates;
pub mod roles;
pub mod rustaceans;
pub mod users;

pub use crates::CrateRepository;
pub use roles::RoleRepository;
pub use rustaceans::RustaceanRepository;
pub use users::UserRepository;
