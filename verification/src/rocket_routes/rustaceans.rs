//! The handlers of `/rustaceans`.

use vstd::prelude::*;
use crate::database::Database;
use crate::models::{NewRustacean, Rustacean};
use crate::repositories::RustaceanRepository;
use crate::rocket_routes::{answer, failure, server_error, Body, BodyView, Response, Status};
use crate::schema::{max_id, prefix};

verus! {

/// `GET /rustaceans`: the first hundred rustaceans by ascending key.
pub fn get_rustaceans(db: &Database) -> (response: Response)
    ensures
        response@ == answer(Status::Success, BodyView::Rustaceans(prefix(db@.rustaceans, 100))),
{
    let rustaceans = RustaceanRepository::find_multiple(db, 100);
    Response { status: Status::Success, body: Body::Rustaceans(rustaceans) }
}

/// `GET /rustaceans/<id>`: the rustacean with key `id`, or the failure
/// response where there is none.
pub fn view_rustacean(db: &Database, id: i32) -> (response: Response)
    ensures
        response@ == if db@.has_rustacean(id as int) {
            answer(Status::Success, BodyView::Rustacean(db@.rustacean(id as int)))
        } else {
            failure()
        },
{
    match RustaceanRepository::find(db, id) {
        Ok(rustacean) => Response { status: Status::Success, body: Body::Rustacean(rustacean) },
        Err(e) => server_error(e),
    }
}

/// `POST /rustaceans`: registers `new_rustacean` at time `now` and answers 201
/// with the new row, or the failure response where the keys have run out.
pub fn create_rustacean(db: &mut Database, new_rustacean: NewRustacean, now: i64) -> (response:
    Response)
    ensures
        old(db)@.next_rustacean_id <= max_id() ==> {
            let row = old(db)@.new_rustacean(new_rustacean@, now as int);
            &&& response@ == answer(Status::Created, BodyView::Rustacean(row))
            &&& final(db)@ == old(db)@.with_rustacean(row)
        },
        old(db)@.next_rustacean_id > max_id() ==> response@ == failure() && final(db)@ == old(db)@,
{
    match RustaceanRepository::create(db, new_rustacean, now) {
        Ok(rustacean) => Response { status: Status::Created, body: Body::Rustacean(rustacean) },
        Err(e) => server_error(e),
    }
}

/// `PUT /rustaceans/<id>`: overwrites the name and the email of the rustacean
/// with key `id` and answers 200 with the row as it now is, or the failure
/// response where there is no such rustacean.
pub fn update_rustacean(db: &mut Database, id: i32, rustacean: Rustacean) -> (response: Response)
    ensures
        old(db)@.has_rustacean(id as int) ==> {
            &&& response@ == answer(
                Status::Success,
                BodyView::Rustacean(old(db)@.revised_rustacean(id as int, rustacean@)),
            )
            &&& final(db)@ == old(db)@.with_rustacean_revised(id as int, rustacean@)
        },
        !old(db)@.has_rustacean(id as int) ==> response@ == failure() && final(db)@ == old(db)@,
{
    match RustaceanRepository::update(db, id, rustacean) {
        Ok(rustacean) => Response { status: Status::Success, body: Body::Rustacean(rustacean) },
        Err(e) => server_error(e),
    }
}

/// `DELETE /rustaceans/<id>`: removes the rustacean with key `id` and answers
/// 204 with no content, also where there was no such rustacean. A rustacean
/// who owns crates is kept, and the answer is the failure response.
pub fn delete_rustacean(db: &mut Database, id: i32) -> (response: Response)
    ensures
        !old(db)@.owns_crates(id as int) ==> {
            &&& response@ == answer(Status::NoContent, BodyView::Empty)
            &&& final(db)@ == old(db)@.without_rustacean(id as int)
        },
        old(db)@.owns_crates(id as int) ==> response@ == failure() && final(db)@ == old(db)@,
{
    match RustaceanRepository::delete(db, id) {
        Ok(_) => Response { status: Status::NoContent, body: Body::Empty },
        Err(e) => server_error(e),
    }
}

} // verus!
