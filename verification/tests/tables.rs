use chlorine::db::album::AlbumInsertion;
use chlorine::db::artist::ArtistInsertion;
use chlorine::db::scrobble::{NewScrobble, ScrobbleInsertion};
use chlorine::db::track::{NewTrack, TrackInsertion};
use chlorine::db::{DbError, DbReply, DbRequest, Progress};
use chlorine::routes::main::artist_page;
use chlorine::routes::Status;

/// An in-memory database answering requests the way the rows model says.
#[derive(Clone, Debug, Default, PartialEq)]
struct MemDb {
    artists: Vec<(i32, String, String)>,
    albums: Vec<(i32, String, String)>,
    album_artists: Vec<(i32, i32, i32)>,
    tracks: Vec<(i32, String, String, Option<i32>)>,
    track_artists: Vec<(i32, i32, i32)>,
    album_tracks: Vec<(i32, i32, i32)>,
    scrobbles: Vec<(i32, Option<i32>)>,
    /// Ids handed out so far, per table; not rolled back.
    handed_out: [i32; 3],
    /// Open transactions, and the database when the outermost one began.
    depth: usize,
    saved: Option<Box<MemDb>>,
}

fn distinct(ids: &[i32]) -> bool {
    ids.iter().enumerate().all(|(i, a)| !ids[..i].contains(a))
}

fn single(found: Vec<i32>) -> DbReply {
    assert!(found.len() <= 1, "lookup matched several rows");
    DbReply::Found(found.first().copied())
}

impl MemDb {
    fn answer(&mut self, request: DbRequest) -> DbReply {
        match request {
            DbRequest::Begin => {
                if self.depth == 0 {
                    self.saved = Some(Box::new(self.clone()));
                }
                self.depth += 1;
                DbReply::Executed
            }
            DbRequest::Commit => {
                if self.depth > 0 {
                    self.depth -= 1;
                    if self.depth == 0 {
                        self.saved = None;
                    }
                }
                DbReply::Executed
            }
            DbRequest::FindArtist { name } => {
                single(self.artists.iter().filter(|a| a.1 == name).map(|a| a.0).collect())
            }
            DbRequest::InsertArtist { name, slug } => {
                self.handed_out[0] += 1;
                let id: i32 = self.handed_out[0];
                self.artists.push((id, name, slug));
                DbReply::Created(id)
            }
            DbRequest::FindAlbum { title, artist_ids } => {
                let credits = &self.album_artists;
                single(
                    self.albums
                        .iter()
                        .filter(|a| {
                            a.1 == title
                                && !artist_ids.is_empty()
                                && distinct(&artist_ids)
                                && artist_ids
                                    .iter()
                                    .all(|x| credits.iter().any(|c| c.0 == a.0 && c.1 == *x))
                        })
                        .map(|a| a.0)
                        .collect(),
                )
            }
            DbRequest::InsertAlbum { title, slug } => {
                self.handed_out[1] += 1;
                let id: i32 = self.handed_out[1];
                self.albums.push((id, title, slug));
                DbReply::Created(id)
            }
            DbRequest::LinkAlbumArtist { album_id, artist_id, artist_order } => {
                self.album_artists.push((album_id, artist_id, artist_order));
                DbReply::Executed
            }
            DbRequest::FindTrack { title, artist_ids } => {
                let mut found = vec![];
                for t in &self.tracks {
                    let mut credited: Vec<i32> = vec![];
                    for c in &self.track_artists {
                        if c.0 == t.0 && !credited.contains(&c.1) {
                            credited.push(c.1);
                        }
                    }
                    if t.1 == title
                        && !artist_ids.is_empty()
                        && artist_ids.iter().all(|x| credited.contains(x))
                        && credited.len() == artist_ids.len()
                    {
                        found.push(t.0);
                    }
                }
                single(found)
            }
            DbRequest::InsertTrack { title, slug, length } => {
                self.handed_out[2] += 1;
                let id: i32 = self.handed_out[2];
                self.tracks.push((id, title, slug, length));
                DbReply::Created(id)
            }
            DbRequest::LinkTrackArtist { track_id, artist_id, artist_order } => {
                self.track_artists.push((track_id, artist_id, artist_order));
                DbReply::Executed
            }
            DbRequest::LinkAlbumTrack { album_id, track_id, track_number } => {
                self.album_tracks.push((album_id, track_id, track_number));
                DbReply::Executed
            }
            DbRequest::InsertScrobble { track_id, album_id } => {
                self.scrobbles.push((track_id, album_id));
                DbReply::Executed
            }
        }
    }

    /// Rolls back the open transaction, as the connection does with an
    /// operation that gave up; the ids handed out stay handed out.
    fn abandon(&mut self) {
        if let Some(before) = self.saved.take() {
            let handed_out = self.handed_out;
            *self = *before;
            self.handed_out = handed_out;
        }
    }

    fn run<M, T>(
        &mut self,
        mut machine: M,
        mut progress: Progress<T>,
        step: fn(M, DbReply) -> (M, Progress<T>),
    ) -> (usize, Result<T, DbError>) {
        let mut requests = 0;
        loop {
            match progress {
                Progress::Finished(outcome) => return (requests, outcome),
                Progress::Request(r) => {
                    requests += 1;
                    let reply = self.answer(r);
                    let (next, p) = step(machine, reply);
                    machine = next;
                    progress = p;
                }
            }
        }
    }

    fn store_artist(&mut self, name: &str) -> (usize, Result<i32, DbError>) {
        let (m, r) = ArtistInsertion::insert_artist(name);
        self.run(m, Progress::Request(r), ArtistInsertion::step)
    }

    fn store_album(&mut self, title: &str, ids: &[i32]) -> (usize, Result<i32, DbError>) {
        let (m, p) = AlbumInsertion::insert_album(title, ids);
        self.run(m, p, AlbumInsertion::step)
    }

    fn store_track(&mut self, t: NewTrack) -> (usize, Result<i32, DbError>) {
        let (m, p) = TrackInsertion::insert_track(t);
        self.run(m, p, TrackInsertion::step)
    }

    fn store_scrobble(&mut self, s: NewScrobble) -> (usize, Result<(), DbError>) {
        let (m, r) = ScrobbleInsertion::insert_scrobble(s);
        self.run(m, Progress::Request(r), ScrobbleInsertion::step)
    }
}

fn s(text: &str) -> String {
    text.to_string()
}

#[test]
fn artist_stored_twice_keeps_its_id() {
    let mut db = MemDb::default();
    db.store_artist("Daft Punk");
    let (_, first) = db.store_artist("Pharrell Williams");
    assert_eq!(first, Ok(2));
    let before = db.clone();
    let (requests, again) = db.store_artist("Pharrell Williams");
    assert_eq!(again, Ok(2));
    assert_eq!(requests, 1);
    assert_eq!(db, before);
    assert_eq!(db.artists[1].1, "Pharrell Williams");
}

#[test]
fn album_stored_twice_keeps_its_id() {
    let mut db = MemDb::default();
    let (_, first) = db.store_album("Random Access Memories", &[3, 9]);
    assert_eq!(first, Ok(1));
    assert_eq!(db.album_artists, vec![(1, 3, 0), (1, 9, 0)]);
    let before = db.clone();
    let (requests, again) = db.store_album("Random Access Memories", &[3, 9]);
    assert_eq!(again, Ok(1));
    assert_eq!(requests, 1);
    assert_eq!(db, before);
}

#[test]
fn track_stored_twice_keeps_its_id() {
    let mut db = MemDb::default();
    let t = |length: Option<i32>| NewTrack {
        title: s("Get Lucky"),
        artist_ids: vec![3, 9],
        length,
        album_id: Some(1),
        album_track_number: Some(8),
    };
    let (_, first) = db.store_track(t(Some(369)));
    assert_eq!(first, Ok(1));
    assert_eq!(db.album_tracks, vec![(1, 1, 8)]);
    let before = db.clone();
    let (requests, again) = db.store_track(t(Some(248)));
    assert_eq!(again, Ok(1));
    assert_eq!(requests, 1);
    assert_eq!(db, before);
}

#[test]
fn track_with_repeated_artist_is_stored_again() {
    let mut db = MemDb::default();
    let t = || NewTrack {
        title: s("Get Lucky"),
        artist_ids: vec![3, 3],
        length: None,
        album_id: None,
        album_track_number: None,
    };
    assert_eq!(db.store_track(t()).1, Ok(1));
    assert_eq!(db.store_track(t()).1, Ok(2));
}

#[test]
fn scrobble_stored_twice_adds_one_listen() {
    let mut db = MemDb::default();
    let listen = || NewScrobble {
        utc_timestamp: Some(1_700_000_000),
        track_title: s("Get Lucky"),
        track_artists: vec![s("Daft Punk"), s("Pharrell Williams")],
        album_title: Some(s("Random Access Memories")),
        album_artists: Some(vec![s("Daft Punk")]),
    };
    assert_eq!(db.store_scrobble(listen()).1, Ok(()));
    assert_eq!(db.scrobbles, vec![(1, Some(1))]);
    let before = db.clone();
    let (requests, again) = db.store_scrobble(listen());
    assert_eq!(again, Ok(()));
    assert_eq!(requests, 8);
    let mut expected = before.clone();
    expected.scrobbles.push((1, Some(1)));
    assert_eq!(db, expected);
}

#[test]
fn scrobble_without_album_stored_twice_adds_one_listen() {
    let mut db = MemDb::default();
    let listen = || NewScrobble {
        utc_timestamp: None,
        track_title: s("Around the World"),
        track_artists: vec![s("Daft Punk")],
        album_title: Some(s("Homework")),
        album_artists: None,
    };
    assert_eq!(db.store_scrobble(listen()).1, Ok(()));
    let before = db.clone();
    assert_eq!(db.store_scrobble(listen()), (5, Ok(())));
    let mut expected = before;
    expected.scrobbles.push((1, None));
    assert_eq!(db, expected);
    assert!(db.albums.is_empty());
}

#[test]
fn artist_page_answers() {
    assert_eq!(artist_page(Err(())), Err(Status::InternalServerError));
    assert_eq!(artist_page(Ok(None)), Err(Status::NotFound));
    assert_eq!(artist_page(Ok(Some(s("Daft Punk")))), Ok(s("Daft Punk")));
    assert_eq!(Status::NotFound.code(), 404);
}

#[test]
fn album_with_repeated_artist_is_credited() {
    let mut db = MemDb::default();
    let (_, id) = db.store_album("Alive 2007", &[3, 3]);
    assert_eq!(id, Ok(1));
    assert_eq!(db.albums[0].1, "Alive 2007");
    assert!(db.album_artists.iter().all(|c| c.0 == 1 && c.1 == 3));
}

#[test]
fn scrobble_with_repeated_artist_adds_one_listen_each_time() {
    let mut db = MemDb::default();
    let listen = || NewScrobble {
        utc_timestamp: None,
        track_title: s("One More Time"),
        track_artists: vec![s("Daft Punk"), s("Daft Punk")],
        album_title: None,
        album_artists: None,
    };
    assert_eq!(db.store_scrobble(listen()).1, Ok(()));
    assert_eq!(db.scrobbles.len(), 1);
    assert_eq!(db.store_scrobble(listen()).1, Ok(()));
    assert_eq!(db.scrobbles.len(), 2);
    for (track_id, album_id) in &db.scrobbles {
        assert_eq!(db.tracks[(*track_id - 1) as usize].1, "One More Time");
        assert_eq!(*album_id, None);
    }
    assert_eq!(db.artists.len(), 1);
}

#[test]
fn failed_track_store_writes_nothing() {
    let mut db = MemDb::default();
    db.store_artist("Daft Punk");
    let before = db.clone();
    let (_, out) = db.store_track(NewTrack {
        title: s("Get Lucky"),
        artist_ids: vec![1],
        length: None,
        album_id: Some(4),
        album_track_number: None,
    });
    assert_eq!(out, Err(DbError::MissingTrackNumber));
    assert_eq!(db.tracks.len(), 1);
    db.abandon();
    let mut expected = before;
    expected.handed_out = db.handed_out;
    assert_eq!(db, expected);
    assert!(db.tracks.is_empty() && db.track_artists.is_empty());
    assert_eq!(db.handed_out[2], 1);
}

#[test]
fn failed_scrobble_store_writes_nothing() {
    let mut db = MemDb::default();
    let before = db.clone();
    let (_, out) = db.store_scrobble(NewScrobble {
        utc_timestamp: None,
        track_title: s("Get Lucky"),
        track_artists: vec![s("Daft Punk"), s("Pharrell Williams")],
        album_title: Some(s("Random Access Memories")),
        album_artists: Some(vec![]),
    });
    assert_eq!(out, Err(DbError::NoArtists));
    assert_eq!(db.artists.len(), 2);
    db.abandon();
    let mut expected = before;
    expected.handed_out = db.handed_out;
    assert_eq!(db, expected);
    assert!(db.artists.is_empty() && db.scrobbles.is_empty());
    assert_eq!(db.depth, 0);
}

#[test]
fn failed_album_store_writes_nothing() {
    let mut db = MemDb::default();
    let before = db.clone();
    let (_, out) = db.store_album("Homework", &[]);
    assert_eq!(out, Err(DbError::NoArtists));
    db.abandon();
    assert_eq!(db, before);
}

#[test]
fn stored_scrobble_closes_its_transaction() {
    let mut db = MemDb::default();
    let (_, out) = db.store_scrobble(NewScrobble {
        utc_timestamp: None,
        track_title: s("Get Lucky"),
        track_artists: vec![s("Daft Punk")],
        album_title: Some(s("Random Access Memories")),
        album_artists: Some(vec![s("Daft Punk")]),
    });
    assert_eq!(out, Ok(()));
    assert_eq!(db.depth, 0);
    assert!(db.saved.is_none());
    let kept = db.clone();
    db.abandon();
    assert_eq!(db, kept);
}
