use chlorine::db::scrobble::NewScrobble;
use chlorine::maloja;
use chlorine::routes::api::compat::maloja::{
    checked_timestamp, exactly_one, maloja_new_scrobble, InvalidTimestamp, MalojaNewScrobbleReq,
};
use chlorine::routes::Status;

fn req(artist: Option<&str>, artists: Option<Vec<&str>>, time: Option<i64>) -> MalojaNewScrobbleReq {
    MalojaNewScrobbleReq {
        artist: artist.map(|a| a.to_string()),
        artists: artists.map(|v| v.into_iter().map(|a| a.to_string()).collect()),
        title: "Get Lucky".to_string(),
        album: Some("RAM".to_string()),
        albumartists: Some(vec!["Daft Punk".to_string()]),
        duration: None,
        length: Some(369),
        time,
        nofix: None,
    }
}

#[test]
fn exactly_one_source() {
    assert_eq!(exactly_one(Some(1), None), Some(1));
    assert_eq!(exactly_one(None, Some(2)), Some(2));
    assert_eq!(exactly_one::<i32>(None, None), None);
    assert_eq!(exactly_one(Some(1), Some(2)), None);
}

#[test]
fn try_from_merges_artists() {
    let s = NewScrobble::try_from(req(Some("Daft Punk"), Some(vec!["Pharrell", "Nile"]), Some(1700000000)))
        .unwrap();
    assert_eq!(s.track_artists, vec!["Daft Punk", "Pharrell", "Nile"]);
    assert_eq!(s.track_title, "Get Lucky");
    assert_eq!(s.album_title, Some("RAM".to_string()));
    assert_eq!(s.album_artists, Some(vec!["Daft Punk".to_string()]));
    assert_eq!(s.utc_timestamp, Some(1700000000));

    let s = NewScrobble::try_from(req(None, Some(vec!["B"]), None)).unwrap();
    assert_eq!(s.track_artists, vec!["B"]);
    assert_eq!(s.utc_timestamp, None);

    let s = NewScrobble::try_from(req(Some("A"), None, None)).unwrap();
    assert_eq!(s.track_artists, vec!["A"]);
}

#[test]
fn timestamp_range() {
    assert_eq!(checked_timestamp(Some(253402207200)), Ok(Some(253402207200)));
    assert_eq!(checked_timestamp(Some(253402207201)), Err(InvalidTimestamp));
    assert_eq!(checked_timestamp(Some(-377705023201)), Ok(Some(-377705023201)));
    assert_eq!(checked_timestamp(Some(-377705023202)), Err(InvalidTimestamp));
    assert_eq!(checked_timestamp(Some(0)), Ok(Some(0)));
    assert_eq!(checked_timestamp(None), Ok(None));
    assert!(NewScrobble::try_from(req(Some("A"), None, Some(i64::MAX))).is_err());
}

#[test]
fn new_scrobble_decisions() {
    assert_eq!(maloja_new_scrobble(None, None).unwrap_err(), Status::BadRequest);
    assert_eq!(
        maloja_new_scrobble(Some(req(Some("A"), None, None)), Some(req(Some("A"), None, None)))
            .unwrap_err(),
        Status::BadRequest
    );
    assert_eq!(
        maloja_new_scrobble(Some(req(None, None, None)), None).unwrap_err(),
        Status::BadRequest
    );
    assert_eq!(
        maloja_new_scrobble(None, Some(req(Some("A"), None, Some(i64::MIN)))).unwrap_err(),
        Status::BadRequest
    );
    let s = maloja_new_scrobble(None, Some(req(Some("A"), None, Some(5)))).unwrap();
    assert_eq!(s.track_artists, vec!["A"]);
    assert_eq!(s.utc_timestamp, Some(5));
    let s = maloja_new_scrobble(Some(req(None, Some(vec!["B"]), None)), None).unwrap();
    assert_eq!(s.track_artists, vec!["B"]);
}

#[test]
fn status_codes() {
    assert_eq!(Status::BadRequest.code(), 400);
    assert_eq!(Status::NotFound.code(), 404);
    assert_eq!(Status::UnsupportedMediaType.code(), 415);
    assert_eq!(Status::InternalServerError.code(), 500);
}

#[test]
fn basic_endpoint_takes_one_source() {
    let r = maloja::MalojaNewScrobbleReq {
        artist: Some("A".to_string()),
        artists: None,
        title: "T".to_string(),
        album: None,
        albumartists: None,
        duration: None,
        length: None,
        time: Some(3),
        nofix: None,
    };
    assert_eq!(maloja::maloja_new_scrobble(Some(r.clone()), None), Ok(r.clone()));
    assert_eq!(maloja::maloja_new_scrobble(None, Some(r.clone())), Ok(r.clone()));
    assert_eq!(maloja::maloja_new_scrobble(None, None), Err(Status::BadRequest));
    assert_eq!(maloja::maloja_new_scrobble(Some(r.clone()), Some(r)), Err(Status::BadRequest));
}
