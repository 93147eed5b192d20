//! The HTML pages: what a page answers, decided from what its queries
//! returned.

use vstd::prelude::*;

use crate::routes::Status;

verus! {

/// The answer of the artist page once the artist's name was asked for: a
/// failed query is an internal error, an unknown artist is not found, and
/// otherwise the page is about the artist of that name.
pub fn artist_page(name: Result<Option<String>, ()>) -> (res: Result<String, Status>)
    ensures
        res == match name {
            Err(_) => Err::<String, Status>(Status::InternalServerError),
            Ok(None) => Err::<String, Status>(Status::NotFound),
            Ok(Some(n)) => Ok::<String, Status>(n),
        },
{
    match name {
        Err(_) => Err(Status::InternalServerError),
        Ok(None) => Err(Status::NotFound),
        Ok(Some(n)) => Ok(n),
    }
}

} // verus!
