use rusty::database::Database;
use rusty::errors::RepositoryError;
use rusty::models::{NewCrate, NewRustacean, Rustacean};
use rusty::repositories::{CrateRepository, RustaceanRepository};
use rusty::rocket_routes::rustaceans::{
    create_rustacean, delete_rustacean, get_rustaceans, update_rustacean, view_rustacean,
};
use rusty::rocket_routes::{server_error, Body, Response, Status};

fn new_rustacean(name: &str, email: &str) -> NewRustacean {
    NewRustacean { name: name.to_string(), email: email.to_string() }
}

fn new_crate(owner: i32) -> NewCrate {
    NewCrate {
        rustacean_id: owner,
        code: "1999".to_string(),
        name: "Foo crate".to_string(),
        version: "0.1".to_string(),
        description: "1999 Foo crate description".to_string(),
    }
}

#[test]
fn created_rustacean_is_found_under_its_key() {
    let mut db = Database::new();
    let created = RustaceanRepository::create(&mut db, new_rustacean("Foo bar", "foo@bar.com"), 42)
        .unwrap();
    assert_eq!(
        created,
        Rustacean {
            id: 1,
            name: "Foo bar".to_string(),
            email: "foo@bar.com".to_string(),
            created_at: 42,
        }
    );
    assert_eq!(RustaceanRepository::find(&db, created.id), Ok(created));
}

#[test]
fn keys_are_handed_out_in_order_and_never_again() {
    let mut db = Database::new();
    let a = RustaceanRepository::create(&mut db, new_rustacean("a", "a@x"), 1).unwrap();
    let b = RustaceanRepository::create(&mut db, new_rustacean("b", "b@x"), 2).unwrap();
    assert_eq!((a.id, b.id), (1, 2));
    assert_eq!(RustaceanRepository::delete(&mut db, b.id), Ok(1));
    let c = RustaceanRepository::create(&mut db, new_rustacean("c", "c@x"), 3).unwrap();
    assert_eq!(c.id, 3);
}

#[test]
fn missing_rustacean_is_not_found() {
    let db = Database::new();
    assert_eq!(RustaceanRepository::find(&db, 7), Err(RepositoryError::NotFound));
    let response = view_rustacean(&db, 7);
    assert_eq!(response, Response { status: Status::InternalServerError, body: Body::Error });
    assert_eq!(response.status.code(), 500);
}

#[test]
fn find_multiple_lists_by_ascending_key_up_to_the_limit() {
    let mut db = Database::new();
    for k in 0..5 {
        RustaceanRepository::create(&mut db, new_rustacean("n", "e"), k).unwrap();
    }
    let ids: Vec<i32> = RustaceanRepository::find_multiple(&db, 3).iter().map(|r| r.id).collect();
    assert_eq!(ids, vec![1, 2, 3]);
    assert_eq!(RustaceanRepository::find_multiple(&db, 0).len(), 0);
    assert_eq!(RustaceanRepository::find_multiple(&db, 100).len(), 5);
}

#[test]
fn get_rustaceans_lists_at_most_one_hundred() {
    let mut db = Database::new();
    for k in 0..101 {
        RustaceanRepository::create(&mut db, new_rustacean("n", "e"), k).unwrap();
    }
    let response = get_rustaceans(&db);
    assert_eq!(response.status, Status::Success);
    match response.body {
        Body::Rustaceans(listed) => {
            assert_eq!(listed.len(), 100);
            assert_eq!(listed[0].id, 1);
            assert_eq!(listed[99].id, 100);
        },
        other => panic!("unexpected body {:?}", other),
    }
}

#[test]
fn update_overwrites_name_and_email_only() {
    let mut db = Database::new();
    let created = RustaceanRepository::create(&mut db, new_rustacean("Foo bar", "foo@bar.com"), 42)
        .unwrap();
    let payload = Rustacean {
        id: 999,
        name: "Fooz bar".to_string(),
        email: "fooz@bar.com".to_string(),
        created_at: 0,
    };
    let updated = RustaceanRepository::update(&mut db, created.id, payload).unwrap();
    assert_eq!(
        updated,
        Rustacean {
            id: 1,
            name: "Fooz bar".to_string(),
            email: "fooz@bar.com".to_string(),
            created_at: 42,
        }
    );
    assert_eq!(RustaceanRepository::find(&db, 1), Ok(updated));
    assert_eq!(RustaceanRepository::find(&db, 999), Err(RepositoryError::NotFound));
}

#[test]
fn update_of_a_missing_rustacean_fails() {
    let mut db = Database::new();
    let payload =
        Rustacean { id: 1, name: "n".to_string(), email: "e".to_string(), created_at: 0 };
    assert_eq!(RustaceanRepository::update(&mut db, 1, payload), Err(RepositoryError::NotFound));
    let payload =
        Rustacean { id: 1, name: "n".to_string(), email: "e".to_string(), created_at: 0 };
    assert_eq!(update_rustacean(&mut db, 1, payload), server_error(RepositoryError::NotFound));
    assert_eq!(RustaceanRepository::find_multiple(&db, 10).len(), 0);
}

#[test]
fn rustacean_routes_answer_with_the_documented_statuses() {
    let mut db = Database::new();
    let response = create_rustacean(&mut db, new_rustacean("Foo bar", "foo@bar.com"), 5);
    let expected = Rustacean {
        id: 1,
        name: "Foo bar".to_string(),
        email: "foo@bar.com".to_string(),
        created_at: 5,
    };
    assert_eq!(response.status.code(), 201);
    assert_eq!(response.body, Body::Rustacean(expected.clone()));
    assert_eq!(
        view_rustacean(&db, 1),
        Response { status: Status::Success, body: Body::Rustacean(expected) }
    );
    assert_eq!(
        delete_rustacean(&mut db, 1),
        Response { status: Status::NoContent, body: Body::Empty }
    );
    assert_eq!(
        delete_rustacean(&mut db, 1),
        Response { status: Status::NoContent, body: Body::Empty }
    );
    assert_eq!(view_rustacean(&db, 1).status, Status::InternalServerError);
}

#[test]
fn rustacean_who_owns_crates_is_not_deleted() {
    let mut db = Database::new();
    let owner = RustaceanRepository::create(&mut db, new_rustacean("Foo bar", "foo@bar.com"), 1)
        .unwrap();
    let a_crate = CrateRepository::create(&mut db, new_crate(owner.id), 2).unwrap();

    assert_eq!(
        RustaceanRepository::delete(&mut db, owner.id),
        Err(RepositoryError::ConstraintViolation)
    );
    assert_eq!(delete_rustacean(&mut db, owner.id).status, Status::InternalServerError);
    assert_eq!(RustaceanRepository::find(&db, owner.id), Ok(owner.clone()));
    assert_eq!(CrateRepository::find(&db, a_crate.id), Ok(a_crate.clone()));

    assert_eq!(CrateRepository::delete(&mut db, a_crate.id), 1);
    assert_eq!(RustaceanRepository::delete(&mut db, owner.id), Ok(1));
    assert_eq!(RustaceanRepository::delete(&mut db, owner.id), Ok(0));
    assert_eq!(RustaceanRepository::find(&db, owner.id), Err(RepositoryError::NotFound));
}

#[test]
fn rustacean_keys_run_out_after_the_largest() {
    let mut db = Database::new();
    let last = Rustacean {
        id: i32::MAX,
        name: "last".to_string(),
        email: "last@x".to_string(),
        created_at: 0,
    };
    assert!(db.restore_rustacean(last));
    assert_eq!(
        RustaceanRepository::create(&mut db, new_rustacean("n", "e"), 1),
        Err(RepositoryError::SequenceExhausted)
    );
    assert_eq!(
        create_rustacean(&mut db, new_rustacean("n", "e"), 1),
        Response { status: Status::InternalServerError, body: Body::Error }
    );
    assert_eq!(RustaceanRepository::find_multiple(&db, 10).len(), 1);
}
