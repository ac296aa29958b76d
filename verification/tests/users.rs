use argon2::password_hash::PasswordHash;
use argon2::{Argon2, PasswordVerifier};
use rusty::commands::{create_user, delete_user, list_users, register_user, CommandError};
use rusty::database::Database;
use rusty::errors::RepositoryError;
use rusty::models::{NewRole, NewUser, Role, User};
use rusty::password::hash_password;
use rusty::repositories::{RoleRepository, UserRepository};

const SALT: &str = "c29tZXJhbmRvbXNhbHQ";

fn role(db: &mut Database, code: &str) -> Role {
    let new = NewRole { code: code.to_string(), name: format!("{} role", code) };
    RoleRepository::create(db, new).unwrap()
}

fn new_user(username: &str) -> NewUser {
    NewUser { username: username.to_string(), password: "hashed".to_string() }
}

fn codes(list: &[&str]) -> Vec<String> {
    list.iter().map(|c| c.to_string()).collect()
}

#[test]
fn roles_get_keys_and_unique_codes() {
    let mut db = Database::new();
    let admin = role(&mut db, "admin");
    let editor = role(&mut db, "editor");
    assert_eq!(admin, Role { id: 1, code: "admin".to_string(), name: "admin role".to_string() });
    assert_eq!(editor.id, 2);
    assert_eq!(
        RoleRepository::create(
            &mut db,
            NewRole { code: "admin".to_string(), name: "again".to_string() }
        ),
        Err(RepositoryError::ConstraintViolation)
    );
    assert_eq!(RoleRepository::find_by_code(&db, &"admin".to_string()), Ok(admin));
    assert_eq!(
        RoleRepository::find_by_code(&db, &"viewer".to_string()),
        Err(RepositoryError::NotFound)
    );
    // the refused role used up no key
    assert_eq!(role(&mut db, "viewer").id, 3);
}

#[test]
fn user_is_created_with_the_roles_named() {
    let mut db = Database::new();
    let admin = role(&mut db, "admin");
    let editor = role(&mut db, "editor");
    role(&mut db, "viewer");

    let user = UserRepository::create(&mut db, new_user("alice"), codes(&["editor", "admin"]))
        .unwrap();
    assert_eq!(
        user,
        User { id: 1, username: "alice".to_string(), password: "hashed".to_string() }
    );
    assert_eq!(RoleRepository::find_by_user(&db, &user), vec![editor, admin]);
}

#[test]
fn second_user_of_the_same_name_is_refused() {
    let mut db = Database::new();
    role(&mut db, "admin");
    let first = UserRepository::create(&mut db, new_user("alice"), codes(&["admin"])).unwrap();
    assert_eq!(
        UserRepository::create(&mut db, new_user("alice"), codes(&["admin"])),
        Err(RepositoryError::ConstraintViolation)
    );
    assert_eq!(
        UserRepository::create(&mut db, new_user("alice"), codes(&[])),
        Err(RepositoryError::ConstraintViolation)
    );
    // a taken name is reported before an unknown role
    assert_eq!(
        UserRepository::create(&mut db, new_user("alice"), codes(&["nobody"])),
        Err(RepositoryError::ConstraintViolation)
    );
    let listed = UserRepository::find_with_roles(&db);
    assert_eq!(listed.len(), 1);
    assert_eq!(listed[0].0, first);
    assert_eq!(UserRepository::create(&mut db, new_user("bob"), codes(&[])).unwrap().id, 2);
}

#[test]
fn user_with_an_unknown_role_is_not_created() {
    let mut db = Database::new();
    role(&mut db, "admin");
    assert_eq!(
        UserRepository::create(&mut db, new_user("alice"), codes(&["admin", "nobody"])),
        Err(RepositoryError::NotFound)
    );
    assert_eq!(UserRepository::find_with_roles(&db).len(), 0);
    let rows = db.into_rows();
    assert!(rows.users.is_empty());
    assert!(rows.user_roles.is_empty());
}

#[test]
fn user_with_a_role_named_twice_is_not_created() {
    let mut db = Database::new();
    role(&mut db, "admin");
    role(&mut db, "editor");
    assert_eq!(
        UserRepository::create(&mut db, new_user("alice"), codes(&["admin", "editor", "admin"])),
        Err(RepositoryError::ConstraintViolation)
    );
    // the first code at fault decides
    assert_eq!(
        UserRepository::create(&mut db, new_user("alice"), codes(&["admin", "admin", "nobody"])),
        Err(RepositoryError::ConstraintViolation)
    );
    assert_eq!(
        UserRepository::create(&mut db, new_user("alice"), codes(&["admin", "nobody", "admin"])),
        Err(RepositoryError::NotFound)
    );
    assert_eq!(UserRepository::find_with_roles(&db).len(), 0);
}

#[test]
fn users_are_listed_with_their_roles() {
    let mut db = Database::new();
    let admin = role(&mut db, "admin");
    let editor = role(&mut db, "editor");
    let alice = UserRepository::create(&mut db, new_user("alice"), codes(&["admin"])).unwrap();
    let bob = UserRepository::create(&mut db, new_user("bob"), codes(&[])).unwrap();
    let carol =
        UserRepository::create(&mut db, new_user("carol"), codes(&["editor", "admin"])).unwrap();

    assert_eq!(
        list_users(&db),
        vec![
            (alice, vec![admin.clone()]),
            (bob, vec![]),
            (carol, vec![editor, admin]),
        ]
    );
}

#[test]
fn deleting_a_user_removes_the_role_assignments() {
    let mut db = Database::new();
    let admin = role(&mut db, "admin");
    let alice = UserRepository::create(&mut db, new_user("alice"), codes(&["admin"])).unwrap();
    let bob = UserRepository::create(&mut db, new_user("bob"), codes(&["admin"])).unwrap();

    assert_eq!(UserRepository::delete(&mut db, alice.id), 1);
    assert_eq!(UserRepository::delete(&mut db, alice.id), 0);
    assert_eq!(UserRepository::find_with_roles(&db), vec![(bob.clone(), vec![admin.clone()])]);
    assert_eq!(RoleRepository::find_by_user(&db, &alice), vec![]);

    delete_user(&mut db, bob.id);
    delete_user(&mut db, 99);
    let rows = db.into_rows();
    assert!(rows.users.is_empty());
    assert!(rows.user_roles.is_empty());
    assert_eq!(rows.roles, vec![admin]);
}

#[test]
fn user_keys_run_out_after_the_largest() {
    let mut db = Database::new();
    assert!(db.restore_user(User {
        id: i32::MAX,
        username: "last".to_string(),
        password: "hashed".to_string(),
    }));
    assert_eq!(
        UserRepository::create(&mut db, new_user("alice"), codes(&[])),
        Err(RepositoryError::SequenceExhausted)
    );
    assert_eq!(
        UserRepository::create(&mut db, new_user("alice"), codes(&["nobody"])),
        Err(RepositoryError::NotFound)
    );
}

#[test]
fn role_keys_run_out_after_the_largest() {
    let mut db = Database::new();
    assert!(db.restore_role(Role {
        id: i32::MAX,
        code: "last".to_string(),
        name: "last".to_string(),
    }));
    assert_eq!(
        RoleRepository::create(&mut db, NewRole { code: "admin".to_string(), name: "a".to_string() }),
        Err(RepositoryError::SequenceExhausted)
    );
    assert_eq!(
        RoleRepository::create(&mut db, NewRole { code: "last".to_string(), name: "a".to_string() }),
        Err(RepositoryError::ConstraintViolation)
    );
}

#[test]
fn password_hash_is_an_argon2_phc_string_of_the_password() {
    let phc = hash_password("secret", SALT).unwrap();
    assert_ne!(phc, "secret");
    assert!(phc.starts_with("$argon2id$v=19$m=19456,t=2,p=1$c29tZXJhbmRvbXNhbHQ$"));
    let parsed = PasswordHash::new(&phc).unwrap();
    assert!(Argon2::default().verify_password("secret".as_bytes(), &parsed).is_ok());
    assert!(Argon2::default().verify_password("Secret".as_bytes(), &parsed).is_err());
}

#[test]
fn password_hash_depends_on_password_and_salt_alone() {
    let phc = hash_password("secret", SALT).unwrap();
    assert_eq!(hash_password("secret", SALT), Some(phc.clone()));
    assert_ne!(hash_password("secret", "YW5vdGhlcnNhbHQhIQ"), Some(phc.clone()));
    assert_ne!(hash_password("other", SALT), Some(phc));
}

#[test]
fn password_is_not_hashed_under_a_bad_salt() {
    assert_eq!(hash_password("secret", ""), None);
    assert_eq!(hash_password("secret", "abc"), None);
    assert_eq!(hash_password("secret", "not a salt!"), None);
    // four characters of B64 decode to three bytes, fewer than the hasher takes
    assert_eq!(hash_password("secret", "YWJj"), None);
}

#[test]
fn register_user_stores_the_hash_it_is_given() {
    let mut db = Database::new();
    let admin = role(&mut db, "admin");
    let hashed = hash_password("secret", SALT);
    let phc = hashed.clone().unwrap();
    let (user, roles) =
        register_user(&mut db, "alice".to_string(), hashed, codes(&["admin"])).unwrap();
    assert_eq!(user, User { id: 1, username: "alice".to_string(), password: phc });
    assert_eq!(roles, vec![admin]);
}

#[test]
fn register_user_fails_where_hashing_failed() {
    let mut db = Database::new();
    role(&mut db, "admin");
    assert_eq!(
        register_user(&mut db, "alice".to_string(), hash_password("secret", "abc"), codes(&["admin"])),
        Err(CommandError::Hashing)
    );
    assert_eq!(list_users(&db).len(), 0);
}

#[test]
fn register_user_passes_on_the_refusal_of_the_registry() {
    let mut db = Database::new();
    let hashed = hash_password("secret", SALT);
    assert_eq!(
        register_user(&mut db, "alice".to_string(), hashed.clone(), codes(&["admin"])),
        Err(CommandError::Repository(RepositoryError::NotFound))
    );
    register_user(&mut db, "alice".to_string(), hashed.clone(), codes(&[])).unwrap();
    assert_eq!(
        register_user(&mut db, "alice".to_string(), hashed, codes(&[])),
        Err(CommandError::Repository(RepositoryError::ConstraintViolation))
    );
}

#[test]
fn create_user_stores_a_hash_that_verifies() {
    let mut db = Database::new();
    let admin = role(&mut db, "admin");
    let (user, roles) =
        create_user(&mut db, "alice".to_string(), "secret".to_string(), codes(&["admin"])).unwrap();
    assert_eq!(user.id, 1);
    assert_eq!(user.username, "alice");
    assert_eq!(roles, vec![admin]);
    assert_ne!(user.password, "secret");
    let parsed = PasswordHash::new(&user.password).unwrap();
    assert!(Argon2::default().verify_password("secret".as_bytes(), &parsed).is_ok());
    assert!(Argon2::default().verify_password("wrong".as_bytes(), &parsed).is_err());
    assert_eq!(list_users(&db)[0].0, user);
}

#[test]
fn create_user_salts_each_password_anew() {
    let mut db = Database::new();
    let (alice, _) =
        create_user(&mut db, "alice".to_string(), "secret".to_string(), codes(&[])).unwrap();
    let (bob, _) =
        create_user(&mut db, "bob".to_string(), "secret".to_string(), codes(&[])).unwrap();
    assert_ne!(alice.password, bob.password);
    assert_eq!(
        create_user(&mut db, "bob".to_string(), "secret".to_string(), codes(&[])),
        Err(CommandError::Repository(RepositoryError::ConstraintViolation))
    );
}
