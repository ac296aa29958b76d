//! The handlers of `/crates`.

use vstd::prelude::*;
use crate::database::Database;
use crate::models::{Crate, NewCrate};
use crate::repositories::CrateRepository;
use crate::rocket_routes::{answer, failure, server_error, Body, BodyView, Response, Status};
use crate::schema::{max_id, prefix};

verus! {

/// `GET /crates`: the first hundred crates by ascending key.
pub fn get_crates(db: &Database) -> (response: Response)
    ensures
        response@ == answer(Status::Success, BodyView::Crates(prefix(db@.crates, 100))),
{
    let crates = CrateRepository::find_multiple(db, 100);
    Response { status: Status::Success, body: Body::Crates(crates) }
}

/// `GET /crates/<id>`: the crate with key `id`, or the failure response where
/// there is none.
pub fn view_crate(db: &Database, id: i32) -> (response: Response)
    ensures
        response@ == if db@.has_crate(id as int) {
            answer(Status::Success, BodyView::Crate(db@.crate_row(id as int)))
        } else {
            failure()
        },
{
    match CrateRepository::find(db, id) {
        Ok(a_crate) => Response { status: Status::Success, body: Body::Crate(a_crate) },
        Err(e) => server_error(e),
    }
}

/// `POST /crates`: publishes `new_crate` at time `now` and answers 201 with
/// the new row: the submitted fields, the key and the creation time. Where
/// the owner named is no rustacean, or the keys have run out, the answer is
/// the failure response and nothing changes.
pub fn create_crate(db: &mut Database, new_crate: NewCrate, now: i64) -> (response: Response)
    ensures
        ({
            let before = old(db)@;
            if before.has_rustacean(new_crate.rustacean_id as int) && before.next_crate_id
                <= max_id() {
                &&& response@ == answer(
                    Status::Created,
                    BodyView::Crate(before.new_crate(new_crate@, now as int)),
                )
                &&& final(db)@ == before.with_crate(before.new_crate(new_crate@, now as int))
            } else {
                &&& response@ == failure()
                &&& final(db)@ == before
            }
        }),
{
    match CrateRepository::create(db, new_crate, now) {
        Ok(a_crate) => Response { status: Status::Created, body: Body::Crate(a_crate) },
        Err(e) => server_error(e),
    }
}

/// `PUT /crates/<id>`: overwrites the crate with key `id`, its owner
/// included, and answers 200 with the row as it now is. Where there is no
/// such crate, or the owner named is no rustacean, the answer is the failure
/// response and nothing changes.
pub fn update_crate(db: &mut Database, id: i32, a_crate: Crate) -> (response: Response)
    ensures
        final(db)@ == old(db)@.after_crate_update(id as int, a_crate@),
        response@ == if old(db)@.has_crate(id as int) && old(db)@.has_rustacean(
            a_crate.rustacean_id as int,
        ) {
            answer(Status::Success, BodyView::Crate(old(db)@.revised_crate(id as int, a_crate@)))
        } else {
            failure()
        },
{
    match CrateRepository::update(db, id, a_crate) {
        Ok(a_crate) => Response { status: Status::Success, body: Body::Crate(a_crate) },
        Err(e) => server_error(e),
    }
}

/// `DELETE /crates/<id>`: removes the crate with key `id` and answers 204
/// with no content, also where there was no such crate.
pub fn delete_crate(db: &mut Database, id: i32) -> (response: Response)
    ensures
        response@ == answer(Status::NoContent, BodyView::Empty),
        final(db)@ == old(db)@.without_crate(id as int),
{
    CrateRepository::delete(db, id);
    Response { status: Status::NoContent, body: Body::Empty }
}

} // verus!
