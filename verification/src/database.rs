//! The registry's state as a value that programs hold.

use vstd::prelude::*;
use crate::models::{views, Crate, Role, Rustacean, User, UserRole};
use crate::schema::DatabaseView;

verus! {

/// The rows of the five tables and the next key of each keyed table.
pub(crate) struct Tables {
    pub(crate) rustaceans: Vec<Rustacean>,
    pub(crate) crates: Vec<Crate>,
    pub(crate) users: Vec<User>,
    pub(crate) roles: Vec<Role>,
    pub(crate) user_roles: Vec<UserRole>,
    pub(crate) next_rustacean_id: i64,
    pub(crate) next_crate_id: i64,
    pub(crate) next_user_id: i64,
    pub(crate) next_role_id: i64,
}

impl View for Tables {
    type V = DatabaseView;

    open(crate) spec fn view(&self) -> DatabaseView {
        DatabaseView {
            rustaceans: views(self.rustaceans@),
            crates: views(self.crates@),
            users: views(self.users@),
            roles: views(self.roles@),
            user_roles: views(self.user_roles@),
            next_rustacean_id: self.next_rustacean_id as int,
            next_crate_id: self.next_crate_id as int,
            next_user_id: self.next_user_id as int,
            next_role_id: self.next_role_id as int,
        }
    }
}

impl Tables {
    pub(crate) fn new() -> (tables: Tables)
        ensures
            tables@ == DatabaseView::empty(),
    {
        let tables = Tables {
            rustaceans: Vec::new(),
            crates: Vec::new(),
            users: Vec::new(),
            roles: Vec::new(),
            user_roles: Vec::new(),
            next_rustacean_id: 1,
            next_crate_id: 1,
            next_user_id: 1,
            next_role_id: 1,
        };
        assert(tables@.rustaceans =~= Seq::empty());
        assert(tables@.crates =~= Seq::empty());
        assert(tables@.users =~= Seq::empty());
        assert(tables@.roles =~= Seq::empty());
        assert(tables@.user_roles =~= Seq::empty());
        tables
    }
}

/// The registry. Its tables are closed to other crates, and every value of the
/// type satisfies the integrity rules of [`DatabaseView::wf`].
pub struct Database {
    pub(crate) tables: Tables,
}

impl View for Database {
    type V = DatabaseView;

    open(crate) spec fn view(&self) -> DatabaseView {
        self.tables@
    }
}

impl Database {
    #[verifier::type_invariant]
    pub(crate) open spec fn inv(self) -> bool {
        self@.wf()
    }

    /// A registry with no rows.
    pub fn new() -> (db: Database)
        ensures
            db@ == DatabaseView::empty(),
    {
        Database { tables: Tables::new() }
    }

    /// Takes the tables out for a change, leaving an empty registry behind.
    pub(crate) fn take(&mut self) -> (tables: Tables)
        ensures
            tables@ == old(self)@,
            tables@.wf(),
    {
        proof {
            use_type_invariant(&*self);
        }
        let mut tables = Tables::new();
        std::mem::swap(&mut self.tables, &mut tables);
        tables
    }

    /// Puts changed tables in place.
    pub(crate) fn put(&mut self, tables: Tables)
        requires
            tables@.wf(),
        ensures
            final(self)@ == tables@,
    {
        self.tables = tables;
    }

    /// Every registry satisfies the integrity rules; this makes the fact
    /// available to proofs about a registry at hand.
    pub fn integrity_holds(&self)
        ensures
            self@.wf(),
    {
        proof {
            use_type_invariant(self);
        }
    }
}

} // verus!
