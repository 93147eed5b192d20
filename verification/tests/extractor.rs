use chlorine::extractor::{body_format, optional_body, starts_with, BodyFormat, JsonOrFormRejection};
use chlorine::maloja::JsonOrForm as BasicJsonOrForm;
use chlorine::routes::Status;

type Rejection = JsonOrFormRejection<&'static str, &'static str>;

#[test]
fn chooses_reader_by_content_type() {
    assert_eq!(body_format::<(), ()>(Some("application/json")), Ok(BodyFormat::Json));
    assert_eq!(
        body_format::<(), ()>(Some("application/json; charset=utf-8")),
        Ok(BodyFormat::Json)
    );
    assert_eq!(
        body_format::<(), ()>(Some("application/x-www-form-urlencoded")),
        Ok(BodyFormat::Form)
    );
    assert_eq!(
        body_format::<(), ()>(Some("text/plain")),
        Err(JsonOrFormRejection::UnsupportedMediaType)
    );
    assert_eq!(
        body_format::<(), ()>(Some("application/jso")),
        Err(JsonOrFormRejection::UnsupportedMediaType)
    );
    assert_eq!(body_format::<(), ()>(None), Err(JsonOrFormRejection::NoMediaType));
}

#[test]
fn prefix_check() {
    assert!(starts_with("abc", ""));
    assert!(starts_with("abc", "ab"));
    assert!(!starts_with("ab", "abc"));
    assert!(!starts_with("éa", "ea"));
    assert!(starts_with("éa", "é"));
}

#[test]
fn rejection_statuses() {
    assert_eq!(Rejection::NoMediaType.status(), Some(Status::BadRequest));
    assert_eq!(Rejection::UnsupportedMediaType.status(), Some(Status::UnsupportedMediaType));
    assert_eq!(Rejection::Json("bad json").status(), None);
    assert_eq!(Rejection::Form("bad form").status(), None);
}

#[test]
fn optional_body_without_media_type_is_absent() {
    assert_eq!(optional_body::<i32, &str, &str>(Ok(5)), Ok(Some(5)));
    assert_eq!(optional_body::<i32, &str, &str>(Err(Rejection::NoMediaType)), Ok(None));
    assert_eq!(
        optional_body::<i32, &str, &str>(Err(Rejection::UnsupportedMediaType)),
        Err(Rejection::UnsupportedMediaType)
    );
    assert_eq!(
        optional_body::<i32, &str, &str>(Err(Rejection::Json("x"))),
        Err(Rejection::Json("x"))
    );
}

#[test]
fn basic_reader_answers_unsupported() {
    assert_eq!(BasicJsonOrForm::<()>::body_format(None), Err(Status::UnsupportedMediaType));
    assert_eq!(
        BasicJsonOrForm::<()>::body_format(Some("text/html")),
        Err(Status::UnsupportedMediaType)
    );
    assert_eq!(
        BasicJsonOrForm::<()>::body_format(Some("application/x-www-form-urlencoded")),
        Ok(BodyFormat::Form)
    );
    assert_eq!(BasicJsonOrForm::new(3).into_inner(), 3);
}
