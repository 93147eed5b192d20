//! A minimal Maloja new-scrobble endpoint, which only reads and
//! reports a submission: any content type other than JSON or an urlencoded
//! form, or none at all, is answered as unsupported.

use vstd::prelude::*;

use crate::extractor::{
    body_format, body_format_by_media_type, body_format_of, text_of, BodyFormat, JsonOrFormRejection,
};
use crate::routes::api::compat::maloja::{exactly_one, exactly_one_of};
use crate::routes::Status;

verus! {

/// A new-scrobble submission as Maloja clients send it, with the time as
/// unsigned seconds.
#[derive(Clone, Debug, PartialEq, Eq)]
pub struct MalojaNewScrobbleReq {
    pub artist: Option<String>,
    pub artists: Option<Vec<String>>,
    pub title: String,
    pub album: Option<String>,
    pub albumartists: Option<Vec<String>>,
    pub duration: Option<u16>,
    pub length: Option<u16>,
    pub time: Option<u32>,
    pub nofix: Option<bool>,
}

/// A body accepted as JSON or as an urlencoded form.
#[derive(Clone, Debug, PartialEq, Eq)]
pub struct JsonOrForm<T>(T);

/// The reading chosen for a content type, every rejection answered as an
/// unsupported media type.
pub open spec fn maloja_body_format_of(content_type: Option<Seq<char>>) -> Result<
    BodyFormat,
    Status,
> {
    match body_format_of::<(), ()>(content_type) {
        Ok(f) => Ok(f),
        Err(_) => Err(Status::UnsupportedMediaType),
    }
}

/// The minimal endpoint reads what the general chooser reads: JSON for a
/// content type that begins with `application/json`, a form for one that
/// begins with `application/x-www-form-urlencoded`, whatever follows either;
/// any other content type, or none, is an unsupported media type.
pub proof fn maloja_body_format_by_media_type(rest: Seq<char>, other: Seq<char>)
    requires
        forall|r: Seq<char>| other != "application/json"@ + r,
        forall|r: Seq<char>| other != "application/x-www-form-urlencoded"@ + r,
    ensures
        maloja_body_format_of(Some("application/json"@ + rest)) == Ok::<BodyFormat, Status>(
            BodyFormat::Json,
        ),
        maloja_body_format_of(Some("application/x-www-form-urlencoded"@ + rest)) == Ok::<
            BodyFormat,
            Status,
        >(BodyFormat::Form),
        maloja_body_format_of(Some(other)) == Err::<BodyFormat, Status>(
            Status::UnsupportedMediaType,
        ),
        maloja_body_format_of(None) == Err::<BodyFormat, Status>(Status::UnsupportedMediaType),
{
    body_format_by_media_type::<(), ()>(rest, other);
}

impl<T> JsonOrForm<T> {
    /// The accepted body.
    pub closed spec fn value(&self) -> T {
        self.0
    }

    /// Wraps an accepted body.
    pub fn new(value: T) -> (res: JsonOrForm<T>)
        ensures
            res.value() == value,
    {
        JsonOrForm(value)
    }

    /// The accepted body.
    pub fn into_inner(self) -> (value: T)
        ensures
            value == self.value(),
    {
        self.0
    }

    /// Chooses how to read a body with the given content type.
    pub fn body_format(content_type: Option<&str>) -> (res: Result<BodyFormat, Status>)
        ensures
            res == maloja_body_format_of(text_of(content_type)),
    {
        match body_format::<(), ()>(content_type) {
            Ok(f) => Ok(f),
            Err(_) => Err(Status::UnsupportedMediaType),
        }
    }
}

/// Takes the submission from exactly one of the query and the body; any
/// other combination is a bad request.
pub fn maloja_new_scrobble(
    params: Option<MalojaNewScrobbleReq>,
    payload: Option<MalojaNewScrobbleReq>,
) -> (res: Result<MalojaNewScrobbleReq, Status>)
    ensures
        res == match exactly_one_of(params, payload) {
            Some(req) => Ok::<MalojaNewScrobbleReq, Status>(req),
            None => Err(Status::BadRequest),
        },
{
    match exactly_one(params, payload) {
        Some(req) => Ok(req),
        None => Err(Status::BadRequest),
    }
}

} // verus!
