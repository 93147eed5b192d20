//! Request handling: the HTTP answers the handlers give.

use vstd::prelude::*;

pub mod api;
pub mod main;

verus! {

/// The HTTP statuses the handlers answer with on their own.
#[derive(Clone, Copy, Debug, PartialEq, Eq, Structural)]
pub enum Status {
    BadRequest,
    NotFound,
    UnsupportedMediaType,
    InternalServerError,
}

impl Status {
    /// The numeric HTTP status code.
    pub fn code(&self) -> (code: u16)
        ensures
            code == match self {
                Status::BadRequest => 400u16,
                Status::NotFound => 404u16,
                Status::UnsupportedMediaType => 415u16,
                Status::InternalServerError => 500u16,
            },
    {
        match self {
            Status::BadRequest => 400,
            Status::NotFound => 404,
            Status::UnsupportedMediaType => 415,
            Status::InternalServerError => 500,
        }
    }
}

} // verus!
