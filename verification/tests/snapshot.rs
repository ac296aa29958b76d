use rusty::database::Database;
use rusty::models::{Crate, NewRustacean, Role, Rustacean, User, UserRole};
use rusty::repositories::{RoleRepository, RustaceanRepository, UserRepository};
use rusty::snapshot::{sequence_next, sequence_state, NextKeys, Rows};

fn rustacean(id: i32) -> Rustacean {
    Rustacean { id, name: format!("r{}", id), email: format!("r{}@x", id), created_at: 9 }
}

fn a_crate(id: i32, owner: i32) -> Crate {
    Crate {
        id,
        rustacean_id: owner,
        code: format!("c{}", id),
        name: "n".to_string(),
        version: "0.1".to_string(),
        description: "d".to_string(),
        created_at: 9,
    }
}

fn user(id: i32, username: &str) -> User {
    User { id, username: username.to_string(), password: "hashed".to_string() }
}

fn role(id: i32, code: &str) -> Role {
    Role { id, code: code.to_string(), name: code.to_string() }
}

#[test]
fn rows_put_in_come_out_again() {
    let mut db = Database::new();
    assert!(db.restore_rustacean(rustacean(2)));
    assert!(db.restore_rustacean(rustacean(5)));
    assert!(db.restore_crate(a_crate(3, 5)));
    assert!(db.restore_role(role(1, "admin")));
    assert!(db.restore_user(user(4, "alice")));
    assert!(db.restore_user_role(UserRole { user_id: 4, role_id: 1 }));

    assert_eq!(RoleRepository::find_by_user(&db, &user(4, "alice")), vec![role(1, "admin")]);
    assert_eq!(
        db.into_rows(),
        Rows {
            rustaceans: vec![rustacean(2), rustacean(5)],
            crates: vec![a_crate(3, 5)],
            users: vec![user(4, "alice")],
            roles: vec![role(1, "admin")],
            user_roles: vec![UserRole { user_id: 4, role_id: 1 }],
        }
    );
}

#[test]
fn next_key_follows_the_last_row_put_in() {
    let mut db = Database::new();
    assert!(db.restore_rustacean(rustacean(7)));
    let new = NewRustacean { name: "n".to_string(), email: "e".to_string() };
    assert_eq!(RustaceanRepository::create(&mut db, new, 0).unwrap().id, 8);
    assert!(db.restore_user(user(3, "alice")));
    let bob = rusty::models::NewUser { username: "bob".to_string(), password: "h".to_string() };
    assert_eq!(UserRepository::create(&mut db, bob, vec![]).unwrap().id, 4);
}

#[test]
fn rows_that_break_a_rule_are_refused() {
    let mut db = Database::new();
    assert!(db.restore_rustacean(rustacean(2)));
    assert!(!db.restore_rustacean(rustacean(2)));
    assert!(!db.restore_rustacean(rustacean(1)));
    assert!(!db.restore_rustacean(rustacean(0)));
    assert!(!db.restore_rustacean(rustacean(-4)));

    assert!(!db.restore_crate(a_crate(1, 3)));
    assert!(db.restore_crate(a_crate(1, 2)));
    assert!(!db.restore_crate(a_crate(1, 2)));

    assert!(db.restore_role(role(1, "admin")));
    assert!(!db.restore_role(role(2, "admin")));
    assert!(!db.restore_role(role(1, "editor")));

    assert!(db.restore_user(user(1, "alice")));
    assert!(!db.restore_user(user(2, "alice")));
    assert!(!db.restore_user(user(1, "bob")));

    assert!(!db.restore_user_role(UserRole { user_id: 2, role_id: 1 }));
    assert!(!db.restore_user_role(UserRole { user_id: 1, role_id: 2 }));
    assert!(db.restore_user_role(UserRole { user_id: 1, role_id: 1 }));
    assert!(!db.restore_user_role(UserRole { user_id: 1, role_id: 1 }));

    assert_eq!(
        db.into_rows(),
        Rows {
            rustaceans: vec![rustacean(2)],
            crates: vec![a_crate(1, 2)],
            users: vec![user(1, "alice")],
            roles: vec![role(1, "admin")],
            user_roles: vec![UserRole { user_id: 1, role_id: 1 }],
        }
    );
}

#[test]
fn next_keys_are_raised_and_never_lowered() {
    let mut db = Database::new();
    assert_eq!(db.next_keys(), NextKeys { rustaceans: 1, crates: 1, users: 1, roles: 1 });

    db.advance_keys(NextKeys { rustaceans: 10, crates: 0, users: i64::MAX, roles: 3 });
    assert_eq!(
        db.next_keys(),
        NextKeys { rustaceans: 10, crates: 1, users: 2_147_483_648, roles: 3 }
    );
    let new = NewRustacean { name: "n".to_string(), email: "e".to_string() };
    assert_eq!(RustaceanRepository::create(&mut db, new, 0).unwrap().id, 10);

    db.advance_keys(NextKeys { rustaceans: 5, crates: -7, users: 1, roles: 4 });
    assert_eq!(
        db.next_keys(),
        NextKeys { rustaceans: 11, crates: 1, users: 2_147_483_648, roles: 4 }
    );
    db.integrity_holds();
}

#[test]
fn sequence_state_holds_the_next_key() {
    assert_eq!(sequence_state(1), (1, false));
    assert_eq!(sequence_state(42), (42, false));
    assert_eq!(sequence_state(2_147_483_647), (2_147_483_647, false));
    assert_eq!(sequence_state(2_147_483_648), (2_147_483_647, true));
    assert_eq!(sequence_state(i64::MAX), (2_147_483_647, true));
    assert_eq!(sequence_state(0), (1, false));
    assert_eq!(sequence_state(-5), (1, false));
}

#[test]
fn sequence_next_follows_a_value_handed_out() {
    assert_eq!(sequence_next(1, false), 1);
    assert_eq!(sequence_next(1, true), 2);
    assert_eq!(sequence_next(2_147_483_647, true), 2_147_483_648);
    assert_eq!(sequence_next(i64::MAX, true), i64::MAX);
    assert_eq!(sequence_next(i64::MAX, false), i64::MAX);
}

#[test]
fn sequence_state_and_next_key_undo_each_other() {
    for next in [1, 2, 77, 2_147_483_647, 2_147_483_648] {
        let (value, is_called) = sequence_state(next);
        assert_eq!(sequence_next(value, is_called), next);
    }
}
