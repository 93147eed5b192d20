//! Accepting a request body as either JSON or an urlencoded form, chosen by
//! the request's content type.

use vstd::prelude::*;

use crate::routes::Status;

verus! {

/// A body accepted as JSON or as an urlencoded form.
#[derive(Clone, Debug, PartialEq, Eq)]
pub struct JsonOrForm<T>(pub T);

/// How a body is to be read.
#[derive(Clone, Copy, Debug, PartialEq, Eq, Structural)]
pub enum BodyFormat {
    Json,
    Form,
}

/// Why a body was not accepted. `J` and `F` are the reasons the JSON and the
/// form reader give.
#[derive(Clone, Debug, PartialEq, Eq)]
pub enum JsonOrFormRejection<J, F> {
    /// The request has no (readable) content type.
    NoMediaType,
    /// The content type is neither JSON nor an urlencoded form.
    UnsupportedMediaType,
    /// The JSON reader refused the body.
    Json(J),
    /// The form reader refused the body.
    Form(F),
}

/// `s` begins with `prefix`.
pub open spec fn has_prefix(s: Seq<char>, prefix: Seq<char>) -> bool {
    prefix.len() <= s.len() && s.subrange(0, prefix.len() as int) == prefix
}

/// Whether `s` begins with `prefix`.
pub fn starts_with(s: &str, prefix: &str) -> (res: bool)
    ensures
        res == has_prefix(s@, prefix@),
{
    let n: usize = prefix.unicode_len();
    if n > s.unicode_len() {
        return false;
    }
    let mut i: usize = 0;
    while i < n
        invariant
            n == prefix@.len(),
            n <= s@.len(),
            i <= n,
            forall|j: int| 0 <= j < i ==> s@[j] == prefix@[j],
        decreases n - i,
    {
        if s.get_char(i) != prefix.get_char(i) {
            assert(s@.subrange(0, n as int)[i as int] != prefix@[i as int]);
            return false;
        }
        i = i + 1;
    }
    assert(s@.subrange(0, n as int) =~= prefix@);
    true
}

/// The media type of JSON bodies.
pub open spec fn json_media_type() -> Seq<char> {
    "application/json"@
}

/// The media type of urlencoded form bodies.
pub open spec fn form_media_type() -> Seq<char> {
    "application/x-www-form-urlencoded"@
}

/// The reading chosen for a content type: JSON when it begins with the JSON
/// media type, a form when it begins with the form media type.
pub open spec fn body_format_of<J, F>(content_type: Option<Seq<char>>) -> Result<
    BodyFormat,
    JsonOrFormRejection<J, F>,
> {
    match content_type {
        None => Err(JsonOrFormRejection::NoMediaType),
        Some(c) => if has_prefix(c, json_media_type()) {
            Ok(BodyFormat::Json)
        } else if has_prefix(c, form_media_type()) {
            Ok(BodyFormat::Form)
        } else {
            Err(JsonOrFormRejection::UnsupportedMediaType)
        },
    }
}

/// The reading is chosen by the leading media type alone: a content type
/// that begins with `application/json` is read as JSON and one that begins
/// with `application/x-www-form-urlencoded` as a form, whatever follows it
/// (media-type parameters such as `; charset=UTF-8`); a content type that
/// begins with neither is unsupported, and a request without one has no
/// media type.
pub proof fn body_format_by_media_type<J, F>(rest: Seq<char>, other: Seq<char>)
    requires
        forall|r: Seq<char>| other != "application/json"@ + r,
        forall|r: Seq<char>| other != "application/x-www-form-urlencoded"@ + r,
    ensures
        body_format_of::<J, F>(Some("application/json"@ + rest)) == Ok::<
            BodyFormat,
            JsonOrFormRejection<J, F>,
        >(BodyFormat::Json),
        body_format_of::<J, F>(Some("application/x-www-form-urlencoded"@ + rest)) == Ok::<
            BodyFormat,
            JsonOrFormRejection<J, F>,
        >(BodyFormat::Form),
        body_format_of::<J, F>(Some(other)) == Err::<BodyFormat, JsonOrFormRejection<J, F>>(
            JsonOrFormRejection::UnsupportedMediaType,
        ),
        body_format_of::<J, F>(None) == Err::<BodyFormat, JsonOrFormRejection<J, F>>(
            JsonOrFormRejection::NoMediaType,
        ),
{
    reveal_strlit("application/json");
    reveal_strlit("application/x-www-form-urlencoded");
    let json = "application/json"@;
    let form = "application/x-www-form-urlencoded"@;
    assert((json + rest).subrange(0, json.len() as int) =~= json);
    assert((form + rest).subrange(0, form.len() as int) =~= form);
    assert((form + rest)[12] == 'x');
    assert(json[12] == 'j');
    assert((form + rest).subrange(0, json.len() as int) != json);
    if has_prefix(other, json) {
        assert(other =~= json + other.subrange(json.len() as int, other.len() as int));
    }
    if has_prefix(other, form) {
        assert(other =~= form + other.subrange(form.len() as int, other.len() as int));
    }
}

/// The content of an optional text.
pub open spec fn text_of(t: Option<&str>) -> Option<Seq<char>> {
    match t {
        Some(s) => Some(s@),
        None => None,
    }
}

/// Chooses how to read a body with the given content type (`None` when the
/// request has none, or one that is not visible ASCII).
pub fn body_format<J, F>(content_type: Option<&str>) -> (res: Result<
    BodyFormat,
    JsonOrFormRejection<J, F>,
>)
    ensures
        res == body_format_of::<J, F>(text_of(content_type)),
{
    match content_type {
        None => Err(JsonOrFormRejection::NoMediaType),
        Some(c) => {
            if starts_with(c, "application/json") {
                Ok(BodyFormat::Json)
            } else if starts_with(c, "application/x-www-form-urlencoded") {
                Ok(BodyFormat::Form)
            } else {
                Err(JsonOrFormRejection::UnsupportedMediaType)
            }
        },
    }
}

impl<J, F> JsonOrFormRejection<J, F> {
    /// The status answered for a rejection decided here; `None` for the
    /// readers' own rejections, which answer for themselves.
    pub fn status(&self) -> (status: Option<Status>)
        ensures
            status == match self {
                JsonOrFormRejection::NoMediaType => Some(Status::BadRequest),
                JsonOrFormRejection::UnsupportedMediaType => Some(Status::UnsupportedMediaType),
                _ => None::<Status>,
            },
    {
        match self {
            JsonOrFormRejection::NoMediaType => Some(Status::BadRequest),
            JsonOrFormRejection::UnsupportedMediaType => Some(Status::UnsupportedMediaType),
            _ => None,
        }
    }
}

/// Reading an optional body: a request without content type has no body;
/// every other rejection stands.
pub open spec fn optional_body_of<T, J, F>(res: Result<T, JsonOrFormRejection<J, F>>) -> Result<
    Option<T>,
    JsonOrFormRejection<J, F>,
> {
    match res {
        Ok(value) => Ok(Some(value)),
        Err(JsonOrFormRejection::NoMediaType) => Ok(None),
        Err(e) => Err(e),
    }
}

/// Turns the result of reading a body into the result of reading an
/// optional one.
pub fn optional_body<T, J, F>(res: Result<T, JsonOrFormRejection<J, F>>) -> (out: Result<
    Option<T>,
    JsonOrFormRejection<J, F>,
>)
    ensures
        out == optional_body_of(res),
{
    match res {
        Ok(value) => Ok(Some(value)),
        Err(JsonOrFormRejection::NoMediaType) => Ok(None),
        Err(e) => Err(e),
    }
}

/// Reading an optional body: a body read is present, a request without a
/// content type has none, and every other rejection is kept as it is.
pub proof fn optional_body_keeps_rejections<T, J, F>(value: T, e: JsonOrFormRejection<J, F>)
    requires
        !(e is NoMediaType),
    ensures
        optional_body_of::<T, J, F>(Ok(value)) == Ok::<Option<T>, JsonOrFormRejection<J, F>>(
            Some(value),
        ),
        optional_body_of::<T, J, F>(Err(JsonOrFormRejection::NoMediaType)) == Ok::<
            Option<T>,
            JsonOrFormRejection<J, F>,
        >(None),
        optional_body_of::<T, J, F>(Err(e)) == Err::<Option<T>, JsonOrFormRejection<J, F>>(e),
{
}

} // verus!
