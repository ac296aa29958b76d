use rusty::database::Database;
use rusty::errors::RepositoryError;
use rusty::models::{Crate, NewCrate, NewRustacean, Rustacean};
use rusty::repositories::{CrateRepository, RustaceanRepository};
use rusty::rocket_routes::crates::{create_crate, update_crate, view_crate};
use rusty::rocket_routes::{Body, Response, Status};

fn rustacean(db: &mut Database, name: &str) -> Rustacean {
    let new = NewRustacean { name: name.to_string(), email: format!("{}@bar.com", name) };
    RustaceanRepository::create(db, new, 10).unwrap()
}

fn new_crate(owner: i32, code: &str) -> NewCrate {
    NewCrate {
        rustacean_id: owner,
        code: code.to_string(),
        name: "Foo crate".to_string(),
        version: "0.1".to_string(),
        description: "1999 Foo crate description".to_string(),
    }
}

fn payload(owner: i32) -> Crate {
    Crate {
        id: 0,
        rustacean_id: owner,
        code: "2000".to_string(),
        name: "updated crate".to_string(),
        version: "0.2".to_string(),
        description: "2000 updated crate description".to_string(),
        created_at: 0,
    }
}

fn crates_of(db: &Database, owner: i32) -> Vec<i32> {
    CrateRepository::find_multiple(db, usize::MAX)
        .iter()
        .filter(|c| c.rustacean_id == owner)
        .map(|c| c.id)
        .collect()
}

#[test]
fn created_crate_carries_the_submitted_fields() {
    let mut db = Database::new();
    let owner = rustacean(&mut db, "foo");
    let created = CrateRepository::create(&mut db, new_crate(owner.id, "1999"), 77).unwrap();
    assert_eq!(
        created,
        Crate {
            id: 1,
            rustacean_id: owner.id,
            code: "1999".to_string(),
            name: "Foo crate".to_string(),
            version: "0.1".to_string(),
            description: "1999 Foo crate description".to_string(),
            created_at: 77,
        }
    );
    assert_eq!(CrateRepository::find(&db, 1), Ok(created));
}

#[test]
fn crate_of_an_unknown_owner_is_refused() {
    let mut db = Database::new();
    assert_eq!(
        CrateRepository::create(&mut db, new_crate(1, "1999"), 0),
        Err(RepositoryError::ConstraintViolation)
    );
    assert_eq!(
        create_crate(&mut db, new_crate(1, "1999"), 0),
        Response { status: Status::InternalServerError, body: Body::Error }
    );
    assert_eq!(CrateRepository::find_multiple(&db, 10).len(), 0);
    // the refused requests used up no key
    let owner = rustacean(&mut db, "foo");
    assert_eq!(CrateRepository::create(&mut db, new_crate(owner.id, "1999"), 0).unwrap().id, 1);
}

#[test]
fn updating_twice_with_one_payload_changes_nothing_more() {
    let mut db = Database::new();
    let owner = rustacean(&mut db, "foo");
    let other = rustacean(&mut db, "baz");
    let a_crate = CrateRepository::create(&mut db, new_crate(owner.id, "1999"), 5).unwrap();
    CrateRepository::create(&mut db, new_crate(other.id, "1998"), 6).unwrap();

    let first = CrateRepository::update(&mut db, a_crate.id, payload(owner.id)).unwrap();
    let after_first = CrateRepository::find_multiple(&db, usize::MAX);
    let second = CrateRepository::update(&mut db, a_crate.id, payload(owner.id)).unwrap();
    let after_second = CrateRepository::find_multiple(&db, usize::MAX);

    assert_eq!(first, second);
    assert_eq!(after_first, after_second);
    assert_eq!(first.created_at, 5);
    assert_eq!(first.id, a_crate.id);
}

#[test]
fn crate_moves_to_its_new_owner() {
    let mut db = Database::new();
    let owner = rustacean(&mut db, "foo");
    let other = rustacean(&mut db, "baz");
    let a_crate = CrateRepository::create(&mut db, new_crate(owner.id, "1999"), 5).unwrap();
    assert_eq!(crates_of(&db, owner.id), vec![a_crate.id]);
    assert_eq!(crates_of(&db, other.id), Vec::<i32>::new());

    let moved = CrateRepository::update(&mut db, a_crate.id, payload(other.id)).unwrap();
    assert_eq!(moved.rustacean_id, other.id);
    assert_eq!(crates_of(&db, owner.id), Vec::<i32>::new());
    assert_eq!(crates_of(&db, other.id), vec![a_crate.id]);
    // the former owner owns nothing now and can go
    assert_eq!(RustaceanRepository::delete(&mut db, owner.id), Ok(1));
    assert_eq!(
        RustaceanRepository::delete(&mut db, other.id),
        Err(RepositoryError::ConstraintViolation)
    );
}

#[test]
fn update_to_an_unknown_owner_is_refused() {
    let mut db = Database::new();
    let owner = rustacean(&mut db, "foo");
    let a_crate = CrateRepository::create(&mut db, new_crate(owner.id, "1999"), 5).unwrap();
    assert_eq!(
        CrateRepository::update(&mut db, a_crate.id, payload(owner.id + 1)),
        Err(RepositoryError::ConstraintViolation)
    );
    assert_eq!(
        update_crate(&mut db, a_crate.id, payload(owner.id + 1)),
        Response { status: Status::InternalServerError, body: Body::Error }
    );
    assert_eq!(CrateRepository::find(&db, a_crate.id), Ok(a_crate));
}

#[test]
fn update_of_a_missing_crate_fails() {
    let mut db = Database::new();
    let owner = rustacean(&mut db, "foo");
    assert_eq!(
        CrateRepository::update(&mut db, 3, payload(owner.id)),
        Err(RepositoryError::NotFound)
    );
    // a missing crate is reported before an unknown owner
    assert_eq!(
        CrateRepository::update(&mut db, 3, payload(owner.id + 1)),
        Err(RepositoryError::NotFound)
    );
}

#[test]
fn deleted_crate_is_gone_and_the_others_stay() {
    let mut db = Database::new();
    let owner = rustacean(&mut db, "foo");
    let a = CrateRepository::create(&mut db, new_crate(owner.id, "a"), 1).unwrap();
    let b = CrateRepository::create(&mut db, new_crate(owner.id, "b"), 2).unwrap();
    let c = CrateRepository::create(&mut db, new_crate(owner.id, "c"), 3).unwrap();

    assert_eq!(CrateRepository::delete(&mut db, b.id), 1);
    assert_eq!(CrateRepository::find(&db, b.id), Err(RepositoryError::NotFound));
    assert_eq!(view_crate(&db, b.id).status, Status::InternalServerError);
    assert_eq!(CrateRepository::find_multiple(&db, 10), vec![a, c]);
    assert_eq!(CrateRepository::delete(&mut db, b.id), 0);
}

#[test]
fn crate_keys_run_out_after_the_largest() {
    let mut db = Database::new();
    let owner = rustacean(&mut db, "foo");
    let mut last = payload(owner.id);
    last.id = i32::MAX;
    assert!(db.restore_crate(last));
    assert_eq!(
        CrateRepository::create(&mut db, new_crate(owner.id, "1999"), 0),
        Err(RepositoryError::SequenceExhausted)
    );
    // an unknown owner is reported before the lack of keys
    assert_eq!(
        CrateRepository::create(&mut db, new_crate(owner.id + 1, "1999"), 0),
        Err(RepositoryError::ConstraintViolation)
    );
}
