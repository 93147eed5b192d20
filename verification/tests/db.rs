use chlorine::db::album::{find_album, AlbumInsertion};
use chlorine::db::artist::ArtistInsertion;
use chlorine::db::scrobble::{NewScrobble, ScrobbleInsertion};
use chlorine::db::track::{find_track, NewTrack, TrackInsertion};
use chlorine::db::{DbError, DbReply, DbRequest, Progress};

type Outcome<T> = Option<Result<T, DbError>>;

fn follow<M, T>(
    mut machine: M,
    mut requests: Vec<DbRequest>,
    replies: &[DbReply],
    step: fn(M, DbReply) -> (M, Progress<T>),
) -> (Vec<DbRequest>, Outcome<T>) {
    for reply in replies {
        let (next, progress) = step(machine, *reply);
        machine = next;
        match progress {
            Progress::Request(r) => requests.push(r),
            Progress::Finished(o) => return (requests, Some(o)),
        }
    }
    (requests, None)
}

fn artist(name: &str, replies: &[DbReply]) -> (Vec<DbRequest>, Outcome<i32>) {
    let (m, first) = ArtistInsertion::insert_artist(name);
    follow(m, vec![first], replies, ArtistInsertion::step)
}

fn album(title: &str, ids: &[i32], replies: &[DbReply]) -> (Vec<DbRequest>, Outcome<i32>) {
    let (m, p) = AlbumInsertion::insert_album(title, ids);
    match p {
        Progress::Request(r) => follow(m, vec![r], replies, AlbumInsertion::step),
        Progress::Finished(o) => (vec![], Some(o)),
    }
}

fn track(t: NewTrack, replies: &[DbReply]) -> (Vec<DbRequest>, Outcome<i32>) {
    let (m, p) = TrackInsertion::insert_track(t);
    match p {
        Progress::Request(r) => follow(m, vec![r], replies, TrackInsertion::step),
        Progress::Finished(o) => (vec![], Some(o)),
    }
}

fn scrobble(s: NewScrobble, replies: &[DbReply]) -> (Vec<DbRequest>, Outcome<()>) {
    let (m, first) = ScrobbleInsertion::insert_scrobble(s);
    follow(m, vec![first], replies, ScrobbleInsertion::step)
}

fn s(text: &str) -> String {
    text.to_string()
}

use DbReply::{Created, Executed, Found};

#[test]
fn artist_reuses_existing() {
    let (reqs, out) = artist("Daft Punk", &[Found(Some(7))]);
    assert_eq!(reqs, vec![DbRequest::FindArtist { name: s("Daft Punk") }]);
    assert_eq!(out, Some(Ok(7)));
}

#[test]
fn artist_creates_missing_under_its_slug() {
    let (reqs, out) = artist("Daft Punk", &[Found(None), Created(12)]);
    assert_eq!(
        reqs,
        vec![
            DbRequest::FindArtist { name: s("Daft Punk") },
            DbRequest::InsertArtist { name: s("Daft Punk"), slug: s("daft-punk") },
        ]
    );
    assert_eq!(out, Some(Ok(12)));
}

#[test]
fn artist_slug_transliterates() {
    let (reqs, _) = artist("Sigur Rós & AC/DC!", &[Found(None)]);
    assert_eq!(
        reqs[1],
        DbRequest::InsertArtist { name: s("Sigur Rós & AC/DC!"), slug: s("sigur-ros-ac-dc") }
    );
}

#[test]
fn artist_rejects_unexpected_reply() {
    let (_, out) = artist("X", &[Executed]);
    assert_eq!(out, Some(Err(DbError::UnexpectedReply)));
    let (_, out) = artist("X", &[Found(None), Found(None)]);
    assert_eq!(out, Some(Err(DbError::UnexpectedReply)));
}

#[test]
fn find_album_and_track_refuse_no_artists() {
    assert_eq!(find_album("Discovery", &[]), Err(chlorine::db::album::NoArtistsError));
    assert_eq!(find_track("One More Time", &[]), Err(chlorine::db::track::NoArtistsError));
    assert_eq!(
        find_album("Discovery", &[3]),
        Ok(DbRequest::FindAlbum { title: s("Discovery"), artist_ids: vec![3] })
    );
    assert_eq!(
        find_track("Aerodynamic", &[3, 4]),
        Ok(DbRequest::FindTrack { title: s("Aerodynamic"), artist_ids: vec![3, 4] })
    );
}

#[test]
fn album_refuses_no_artists() {
    let (reqs, out) = album("Discovery", &[], &[Found(None)]);
    assert!(reqs.is_empty());
    assert_eq!(out, Some(Err(DbError::NoArtists)));
}

#[test]
fn album_reuses_existing() {
    let (reqs, out) = album("Discovery", &[3], &[Found(Some(40))]);
    assert_eq!(reqs, vec![DbRequest::FindAlbum { title: s("Discovery"), artist_ids: vec![3] }]);
    assert_eq!(out, Some(Ok(40)));
}

#[test]
fn album_creates_missing() {
    let (reqs, out) = album(
        "Random Access Memories",
        &[3, 9],
        &[Found(None), Executed, Created(41), Executed, Executed, Executed],
    );
    assert_eq!(
        reqs,
        vec![
            DbRequest::FindAlbum { title: s("Random Access Memories"), artist_ids: vec![3, 9] },
            DbRequest::Begin,
            DbRequest::InsertAlbum {
                title: s("Random Access Memories"),
                slug: s("random-access-memories"),
            },
            DbRequest::LinkAlbumArtist { album_id: 41, artist_id: 3, artist_order: 0 },
            DbRequest::LinkAlbumArtist { album_id: 41, artist_id: 9, artist_order: 0 },
            DbRequest::Commit,
        ]
    );
    assert_eq!(out, Some(Ok(41)));
}

fn new_track(ids: Vec<i32>, album_id: Option<i32>) -> NewTrack {
    NewTrack {
        title: s("Get Lucky"),
        artist_ids: ids,
        length: Some(369),
        album_id,
        album_track_number: Some(8),
    }
}

#[test]
fn track_refuses_no_artists() {
    let (reqs, out) = track(new_track(vec![], None), &[]);
    assert!(reqs.is_empty());
    assert_eq!(out, Some(Err(DbError::NoArtists)));
}

#[test]
fn track_reuses_existing() {
    let (reqs, out) = track(new_track(vec![3], Some(41)), &[Found(Some(70))]);
    assert_eq!(reqs, vec![DbRequest::FindTrack { title: s("Get Lucky"), artist_ids: vec![3] }]);
    assert_eq!(out, Some(Ok(70)));
}

#[test]
fn track_creates_missing_on_album() {
    let (reqs, out) = track(
        new_track(vec![3, 9], Some(41)),
        &[Found(None), Executed, Created(71), Executed, Executed, Executed, Executed],
    );
    assert_eq!(
        reqs,
        vec![
            DbRequest::FindTrack { title: s("Get Lucky"), artist_ids: vec![3, 9] },
            DbRequest::Begin,
            DbRequest::InsertTrack { title: s("Get Lucky"), slug: s("get-lucky"), length: Some(369) },
            DbRequest::LinkTrackArtist { track_id: 71, artist_id: 3, artist_order: 0 },
            DbRequest::LinkTrackArtist { track_id: 71, artist_id: 9, artist_order: 0 },
            DbRequest::LinkAlbumTrack { album_id: 41, track_id: 71, track_number: 8 },
            DbRequest::Commit,
        ]
    );
    assert_eq!(out, Some(Ok(71)));
}

#[test]
fn track_creates_missing_without_album() {
    let (reqs, out) = track(
        new_track(vec![3], None),
        &[Found(None), Executed, Created(72), Executed, Executed],
    );
    assert_eq!(reqs.len(), 5);
    assert_eq!(reqs[3], DbRequest::LinkTrackArtist { track_id: 72, artist_id: 3, artist_order: 0 });
    assert_eq!(reqs[4], DbRequest::Commit);
    assert_eq!(out, Some(Ok(72)));
}

fn new_scrobble(artists: Vec<&str>, album_title: Option<&str>, album_artists: Option<Vec<&str>>) -> NewScrobble {
    NewScrobble {
        utc_timestamp: None,
        track_title: s("Get Lucky"),
        track_artists: artists.into_iter().map(s).collect(),
        album_title: album_title.map(s),
        album_artists: album_artists.map(|v| v.into_iter().map(s).collect()),
    }
}

#[test]
fn scrobble_of_known_track_without_album() {
    let (reqs, out) = scrobble(
        new_scrobble(vec!["Daft Punk", "Pharrell Williams"], None, None),
        &[Executed, Found(Some(3)), Found(Some(9)), Found(Some(70)), Executed, Executed],
    );
    assert_eq!(
        reqs,
        vec![
            DbRequest::Begin,
            DbRequest::FindArtist { name: s("Daft Punk") },
            DbRequest::FindArtist { name: s("Pharrell Williams") },
            DbRequest::FindTrack { title: s("Get Lucky"), artist_ids: vec![3, 9] },
            DbRequest::InsertScrobble { track_id: 70, album_id: None },
            DbRequest::Commit,
        ]
    );
    assert_eq!(out, Some(Ok(())));
}

#[test]
fn scrobble_of_new_track_on_new_album() {
    let (reqs, out) = scrobble(
        new_scrobble(vec!["Daft Punk"], Some("RAM"), Some(vec!["Daft Punk"])),
        &[
            Executed,
            Found(None),
            Created(3),
            Found(Some(3)),
            Found(None),
            Executed,
            Created(41),
            Executed,
            Executed,
            Found(None),
            Executed,
            Created(71),
            Executed,
            Executed,
            Executed,
            Executed,
            Executed,
        ],
    );
    assert_eq!(
        reqs,
        vec![
            DbRequest::Begin,
            DbRequest::FindArtist { name: s("Daft Punk") },
            DbRequest::InsertArtist { name: s("Daft Punk"), slug: s("daft-punk") },
            DbRequest::FindArtist { name: s("Daft Punk") },
            DbRequest::FindAlbum { title: s("RAM"), artist_ids: vec![3] },
            DbRequest::Begin,
            DbRequest::InsertAlbum { title: s("RAM"), slug: s("ram") },
            DbRequest::LinkAlbumArtist { album_id: 41, artist_id: 3, artist_order: 0 },
            DbRequest::Commit,
            DbRequest::FindTrack { title: s("Get Lucky"), artist_ids: vec![3] },
            DbRequest::Begin,
            DbRequest::InsertTrack { title: s("Get Lucky"), slug: s("get-lucky"), length: None },
            DbRequest::LinkTrackArtist { track_id: 71, artist_id: 3, artist_order: 0 },
            DbRequest::LinkAlbumTrack { album_id: 41, track_id: 71, track_number: 0 },
            DbRequest::Commit,
            DbRequest::InsertScrobble { track_id: 71, album_id: Some(41) },
            DbRequest::Commit,
        ]
    );
    assert_eq!(out, Some(Ok(())));
}

#[test]
fn scrobble_needs_track_artists() {
    let (reqs, out) = scrobble(new_scrobble(vec![], None, None), &[Executed, Executed]);
    assert_eq!(reqs, vec![DbRequest::Begin]);
    assert_eq!(out, Some(Err(DbError::NoArtists)));
}

#[test]
fn scrobble_with_album_but_no_album_artists_fails() {
    let (reqs, out) = scrobble(
        new_scrobble(vec!["Daft Punk"], Some("RAM"), Some(vec![])),
        &[Executed, Found(Some(3))],
    );
    assert_eq!(reqs.len(), 2);
    assert_eq!(out, Some(Err(DbError::NoArtists)));
}

#[test]
fn scrobble_ignores_album_without_artists() {
    let (reqs, out) = scrobble(
        new_scrobble(vec!["Daft Punk"], Some("RAM"), None),
        &[Executed, Found(Some(3)), Found(Some(70)), Executed, Executed],
    );
    assert!(reqs.iter().all(|r| !matches!(
        r,
        DbRequest::FindAlbum { .. } | DbRequest::InsertAlbum { .. } | DbRequest::LinkAlbumArtist { .. }
    )));
    assert_eq!(reqs[reqs.len() - 2], DbRequest::InsertScrobble { track_id: 70, album_id: None });
    assert_eq!(out, Some(Ok(())));
}

#[test]
fn scrobble_rejects_unexpected_reply() {
    let (_, out) = scrobble(new_scrobble(vec!["A"], None, None), &[Found(None)]);
    assert_eq!(out, Some(Err(DbError::UnexpectedReply)));
}

#[test]
fn album_and_track_reject_unexpected_reply() {
    let (_, out) = album("Discovery", &[3], &[Created(1)]);
    assert_eq!(out, Some(Err(DbError::UnexpectedReply)));
    let (_, out) = track(new_track(vec![3], None), &[Found(None), Found(None)]);
    assert_eq!(out, Some(Err(DbError::UnexpectedReply)));
}

#[test]
fn track_on_album_without_number() {
    let t = NewTrack {
        title: s("Get Lucky"),
        artist_ids: vec![3],
        length: None,
        album_id: Some(41),
        album_track_number: None,
    };
    let (reqs, out) = track(t, &[Found(None), Executed, Created(73), Executed, Executed]);
    assert_eq!(reqs.len(), 4);
    assert_eq!(out, Some(Err(DbError::MissingTrackNumber)));
    let t = NewTrack {
        title: s("Get Lucky"),
        artist_ids: vec![3],
        length: None,
        album_id: Some(41),
        album_track_number: None,
    };
    let (_, out) = track(t, &[Found(Some(70))]);
    assert_eq!(out, Some(Ok(70)));
    let t = NewTrack {
        title: s("Get Lucky"),
        artist_ids: vec![],
        length: None,
        album_id: Some(41),
        album_track_number: None,
    };
    let (reqs, out) = track(t, &[]);
    assert!(reqs.is_empty());
    assert_eq!(out, Some(Err(DbError::NoArtists)));
}
