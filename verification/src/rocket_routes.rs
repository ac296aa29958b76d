//! The handlers of the HTTP interface, as functions from the registry and a
//! request to a response.
//!
//! A handler decides the status and the body; the web server around it turns
//! the body into JSON. Reads and updates answer 200, creations 201, removals
//! 204 with no content, and every failure of the data-access layer answers
//! 500 with the same opaque error body, whatever the reason.

pub mod crates;
pub mod rustaceans;

use vstd::prelude::*;
use crate::errors::RepositoryError;
use crate::models::{views, Crate, CrateView, Rustacean, RustaceanView};

verus! {

/// The status line of a response.
#[derive(Debug, Clone, Copy, PartialEq, Eq, Structural)]
pub enum Status {
    /// 200 OK.
    Success,
    /// 201 Created.
    Created,
    /// 204 No Content.
    NoContent,
    /// 500 Internal Server Error.
    InternalServerError,
}

impl Status {
    /// The status code as a number.
    pub open spec fn spec_code(self) -> int {
        match self {
            Status::Success => 200,
            Status::Created => 201,
            Status::NoContent => 204,
            Status::InternalServerError => 500,
        }
    }

    /// The status code as a number.
    pub fn code(&self) -> (code: u16)
        ensures
            code == self.spec_code(),
    {
        match self {
            Status::Success => 200,
            Status::Created => 201,
            Status::NoContent => 204,
            Status::InternalServerError => 500,
        }
    }
}

/// What a response carries.
#[derive(Debug, PartialEq, Eq)]
pub enum Body {
    /// Nothing.
    Empty,
    /// The opaque error payload.
    Error,
    Rustacean(Rustacean),
    Rustaceans(Vec<Rustacean>),
    Crate(Crate),
    Crates(Vec<Crate>),
}

/// The mathematical value of a [`Body`].
pub enum BodyView {
    Empty,
    Error,
    Rustacean(RustaceanView),
    Rustaceans(Seq<RustaceanView>),
    Crate(CrateView),
    Crates(Seq<CrateView>),
}

impl View for Body {
    type V = BodyView;

    open spec fn view(&self) -> BodyView {
        match self {
            Body::Empty => BodyView::Empty,
            Body::Error => BodyView::Error,
            Body::Rustacean(row) => BodyView::Rustacean(row@),
            Body::Rustaceans(rows) => BodyView::Rustaceans(views(rows@)),
            Body::Crate(row) => BodyView::Crate(row@),
            Body::Crates(rows) => BodyView::Crates(views(rows@)),
        }
    }
}

/// A response: its status and its body.
#[derive(Debug, PartialEq, Eq)]
pub struct Response {
    pub status: Status,
    pub body: Body,
}

/// The mathematical value of a [`Response`].
pub struct ResponseView {
    pub status: Status,
    pub body: BodyView,
}

impl View for Response {
    type V = ResponseView;

    open spec fn view(&self) -> ResponseView {
        ResponseView { status: self.status, body: self.body@ }
    }
}

/// The response to a request that was carried out.
pub open spec fn answer(status: Status, body: BodyView) -> ResponseView {
    ResponseView { status, body }
}

/// The response to a request that failed: status 500 and the error payload.
pub open spec fn failure() -> ResponseView {
    ResponseView { status: Status::InternalServerError, body: BodyView::Error }
}

/// The response to a request on which the data-access layer failed. The
/// reason is not passed on to the client.
pub fn server_error(e: RepositoryError) -> (response: Response)
    ensures
        response@ == failure(),
{
    Response { status: Status::InternalServerError, body: Body::Error }
}

} // verus!
