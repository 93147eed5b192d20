//! Storing a scrobble: inside one transaction, store every track artist,
//! the album with its artists when both are given, the track, and finally
//! the listen itself.

use vstd::prelude::*;

use crate::db::album::{album_start, album_step, AlbumInsertion, AlbumInsertionModel};
use crate::db::artist::{artist_start, artist_step, ArtistInsertion, ArtistInsertionModel};
use crate::db::track::{
    track_start, track_step, NewTrack, NewTrackModel, TrackInsertion, TrackInsertionModel,
};
use crate::db::{DbError, DbReply, DbRequest, Progress, ProgressModel, RequestModel};

verus! {

/// One listen to be stored.
#[derive(Clone, Debug, PartialEq, Eq)]
pub struct NewScrobble {
    /// When the listen happened, in seconds since the Unix epoch, if known.
    pub utc_timestamp: Option<i64>,
    pub track_title: String,
    pub track_artists: Vec<String>,
    pub album_title: Option<String>,
    pub album_artists: Option<Vec<String>>,
}

/// The mathematical content of a [`NewScrobble`].
pub struct NewScrobbleModel {
    pub utc_timestamp: Option<i64>,
    pub track_title: Seq<char>,
    pub track_artists: Seq<Seq<char>>,
    pub album_title: Option<Seq<char>>,
    pub album_artists: Option<Seq<Seq<char>>>,
}

impl View for NewScrobble {
    type V = NewScrobbleModel;

    open spec fn view(&self) -> NewScrobbleModel {
        NewScrobbleModel {
            utc_timestamp: self.utc_timestamp,
            track_title: self.track_title@,
            track_artists: self.track_artists.deep_view(),
            album_title: match self.album_title {
                Some(t) => Some(t@),
                None => None,
            },
            album_artists: match self.album_artists {
                Some(a) => Some(a.deep_view()),
                None => None,
            },
        }
    }
}

/// The storing of one scrobble.
pub enum ScrobbleInsertion {
    /// The transaction was opened.
    AwaitBegin { scrobble: NewScrobble },
    /// `scrobble.track_artists[ids.len()]` is being stored; `ids` holds the
    /// ids of the ones before it.
    TrackArtists { scrobble: NewScrobble, ids: Vec<i32>, artist: ArtistInsertion },
    /// `album_artists[ids.len()]` is being stored.
    AlbumArtists {
        track_title: String,
        track_ids: Vec<i32>,
        album_title: String,
        album_artists: Vec<String>,
        ids: Vec<i32>,
        artist: ArtistInsertion,
    },
    /// The album is being stored.
    Album { track_title: String, track_ids: Vec<i32>, album: AlbumInsertion },
    /// The track is being stored.
    Track { album_id: Option<i32>, track: TrackInsertion },
    /// The listen was recorded.
    AwaitScrobble,
    /// The commit was issued.
    AwaitCommit,
    /// The operation is over.
    Finished,
}

/// The mathematical content of a [`ScrobbleInsertion`].
pub enum ScrobbleInsertionModel {
    AwaitBegin { scrobble: NewScrobbleModel },
    TrackArtists { scrobble: NewScrobbleModel, ids: Seq<i32>, artist: ArtistInsertionModel },
    AlbumArtists {
        track_title: Seq<char>,
        track_ids: Seq<i32>,
        album_title: Seq<char>,
        album_artists: Seq<Seq<char>>,
        ids: Seq<i32>,
        artist: ArtistInsertionModel,
    },
    Album { track_title: Seq<char>, track_ids: Seq<i32>, album: AlbumInsertionModel },
    Track { album_id: Option<i32>, track: TrackInsertionModel },
    AwaitScrobble,
    AwaitCommit,
    Finished,
}

impl View for ScrobbleInsertion {
    type V = ScrobbleInsertionModel;

    open spec fn view(&self) -> ScrobbleInsertionModel {
        match self {
            ScrobbleInsertion::AwaitBegin { scrobble } => ScrobbleInsertionModel::AwaitBegin {
                scrobble: scrobble@,
            },
            ScrobbleInsertion::TrackArtists { scrobble, ids, artist } =>
                ScrobbleInsertionModel::TrackArtists {
                scrobble: scrobble@,
                ids: ids@,
                artist: artist@,
            },
            ScrobbleInsertion::AlbumArtists {
                track_title,
                track_ids,
                album_title,
                album_artists,
                ids,
                artist,
            } => ScrobbleInsertionModel::AlbumArtists {
                track_title: track_title@,
                track_ids: track_ids@,
                album_title: album_title@,
                album_artists: album_artists.deep_view(),
                ids: ids@,
                artist: artist@,
            },
            ScrobbleInsertion::Album { track_title, track_ids, album } =>
                ScrobbleInsertionModel::Album {
                track_title: track_title@,
                track_ids: track_ids@,
                album: album@,
            },
            ScrobbleInsertion::Track { album_id, track } => ScrobbleInsertionModel::Track {
                album_id: *album_id,
                track: track@,
            },
            ScrobbleInsertion::AwaitScrobble => ScrobbleInsertionModel::AwaitScrobble,
            ScrobbleInsertion::AwaitCommit => ScrobbleInsertionModel::AwaitCommit,
            ScrobbleInsertion::Finished => ScrobbleInsertionModel::Finished,
        }
    }
}

/// Gives up with `e`.
pub open spec fn scrobble_fail(e: DbError) -> (ScrobbleInsertionModel, ProgressModel<()>) {
    (ScrobbleInsertionModel::Finished, ProgressModel::Finished(Err(e)))
}

/// Starting: a transaction is opened.
pub open spec fn scrobble_start(s: NewScrobbleModel) -> (ScrobbleInsertionModel, RequestModel) {
    (ScrobbleInsertionModel::AwaitBegin { scrobble: s }, RequestModel::Begin)
}

/// The track stored for the scrobble: its title, the ids of its artists,
/// no length, the album if any, at position 0.
pub open spec fn scrobble_track(track_title: Seq<char>, track_ids: Seq<i32>, album_id: Option<i32>) -> NewTrackModel {
    NewTrackModel {
        title: track_title,
        artist_ids: track_ids,
        length: None,
        album_id,
        album_track_number: Some(0),
    }
}

/// Stores the track; once it is stored, records the listen.
pub open spec fn scrobble_enter_track(
    track_title: Seq<char>,
    track_ids: Seq<i32>,
    album_id: Option<i32>,
) -> (ScrobbleInsertionModel, ProgressModel<()>) {
    let (track, p) = track_start(scrobble_track(track_title, track_ids, album_id));
    match p {
        ProgressModel::Request(r) => (
            ScrobbleInsertionModel::Track { album_id, track },
            ProgressModel::Request(r),
        ),
        ProgressModel::Finished(Ok(track_id)) => (
            ScrobbleInsertionModel::AwaitScrobble,
            ProgressModel::Request(RequestModel::InsertScrobble { track_id, album_id }),
        ),
        ProgressModel::Finished(Err(e)) => scrobble_fail(e),
    }
}

/// Stores `album_artists[ids.len()]`, or, once all are stored, the album.
pub open spec fn scrobble_album_artists_from(
    track_title: Seq<char>,
    track_ids: Seq<i32>,
    album_title: Seq<char>,
    album_artists: Seq<Seq<char>>,
    ids: Seq<i32>,
) -> (ScrobbleInsertionModel, ProgressModel<()>) {
    if ids.len() < album_artists.len() {
        let (artist, r) = artist_start(album_artists[ids.len() as int]);
        (
            ScrobbleInsertionModel::AlbumArtists {
                track_title,
                track_ids,
                album_title,
                album_artists,
                ids,
                artist,
            },
            ProgressModel::Request(r),
        )
    } else {
        let (album, p) = album_start(album_title, ids);
        match p {
            ProgressModel::Request(r) => (
                ScrobbleInsertionModel::Album { track_title, track_ids, album },
                ProgressModel::Request(r),
            ),
            ProgressModel::Finished(Ok(album_id)) => scrobble_enter_track(
                track_title,
                track_ids,
                Some(album_id),
            ),
            ProgressModel::Finished(Err(e)) => scrobble_fail(e),
        }
    }
}

/// With both an album title and album artists, stores the album artists
/// and the album; otherwise goes on to the track with no album.
pub open spec fn scrobble_enter_album(s: NewScrobbleModel, track_ids: Seq<i32>) -> (
    ScrobbleInsertionModel,
    ProgressModel<()>,
) {
    match (s.album_title, s.album_artists) {
        (Some(album_title), Some(album_artists)) => scrobble_album_artists_from(
            s.track_title,
            track_ids,
            album_title,
            album_artists,
            Seq::empty(),
        ),
        _ => scrobble_enter_track(s.track_title, track_ids, None),
    }
}

/// Stores `s.track_artists[ids.len()]`, or, once all are stored, goes on to
/// the album.
pub open spec fn scrobble_track_artists_from(s: NewScrobbleModel, ids: Seq<i32>) -> (
    ScrobbleInsertionModel,
    ProgressModel<()>,
) {
    if ids.len() < s.track_artists.len() {
        let (artist, r) = artist_start(s.track_artists[ids.len() as int]);
        (ScrobbleInsertionModel::TrackArtists { scrobble: s, ids, artist }, ProgressModel::Request(r))
    } else {
        scrobble_enter_album(s, ids)
    }
}

/// One reply: it is handed to the operation in progress (an artist, the
/// album or the track); when that one finishes, the scrobble goes on to the
/// next; when one fails, the scrobble fails the same way. After the track,
/// the listen is recorded with the track and album ids and the transaction
/// committed.
pub open spec fn scrobble_step(m: ScrobbleInsertionModel, reply: DbReply) -> (
    ScrobbleInsertionModel,
    ProgressModel<()>,
) {
    match m {
        ScrobbleInsertionModel::AwaitBegin { scrobble } => if reply == DbReply::Executed {
            scrobble_track_artists_from(scrobble, Seq::empty())
        } else {
            scrobble_fail(DbError::UnexpectedReply)
        },
        ScrobbleInsertionModel::TrackArtists { scrobble, ids, artist } => {
            let (artist2, p) = artist_step(artist, reply);
            match p {
                ProgressModel::Request(r) => (
                    ScrobbleInsertionModel::TrackArtists { scrobble, ids, artist: artist2 },
                    ProgressModel::Request(r),
                ),
                ProgressModel::Finished(Ok(id)) => scrobble_track_artists_from(scrobble, ids.push(id)),
                ProgressModel::Finished(Err(e)) => scrobble_fail(e),
            }
        },
        ScrobbleInsertionModel::AlbumArtists {
            track_title,
            track_ids,
            album_title,
            album_artists,
            ids,
            artist,
        } => {
            let (artist2, p) = artist_step(artist, reply);
            match p {
                ProgressModel::Request(r) => (
                    ScrobbleInsertionModel::AlbumArtists {
                        track_title,
                        track_ids,
                        album_title,
                        album_artists,
                        ids,
                        artist: artist2,
                    },
                    ProgressModel::Request(r),
                ),
                ProgressModel::Finished(Ok(id)) => scrobble_album_artists_from(
                    track_title,
                    track_ids,
                    album_title,
                    album_artists,
                    ids.push(id),
                ),
                ProgressModel::Finished(Err(e)) => scrobble_fail(e),
            }
        },
        ScrobbleInsertionModel::Album { track_title, track_ids, album } => {
            let (album2, p) = album_step(album, reply);
            match p {
                ProgressModel::Request(r) => (
                    ScrobbleInsertionModel::Album { track_title, track_ids, album: album2 },
                    ProgressModel::Request(r),
                ),
                ProgressModel::Finished(Ok(album_id)) => scrobble_enter_track(
                    track_title,
                    track_ids,
                    Some(album_id),
                ),
                ProgressModel::Finished(Err(e)) => scrobble_fail(e),
            }
        },
        ScrobbleInsertionModel::Track { album_id, track } => {
            let (track2, p) = track_step(track, reply);
            match p {
                ProgressModel::Request(r) => (
                    ScrobbleInsertionModel::Track { album_id, track: track2 },
                    ProgressModel::Request(r),
                ),
                ProgressModel::Finished(Ok(track_id)) => (
                    ScrobbleInsertionModel::AwaitScrobble,
                    ProgressModel::Request(RequestModel::InsertScrobble { track_id, album_id }),
                ),
                ProgressModel::Finished(Err(e)) => scrobble_fail(e),
            }
        },
        ScrobbleInsertionModel::AwaitScrobble => if reply == DbReply::Executed {
            (ScrobbleInsertionModel::AwaitCommit, ProgressModel::Request(RequestModel::Commit))
        } else {
            scrobble_fail(DbError::UnexpectedReply)
        },
        ScrobbleInsertionModel::AwaitCommit => if reply == DbReply::Executed {
            (ScrobbleInsertionModel::Finished, ProgressModel::Finished(Ok(())))
        } else {
            scrobble_fail(DbError::UnexpectedReply)
        },
        ScrobbleInsertionModel::Finished => scrobble_fail(DbError::UnexpectedReply),
    }
}

fn fail(e: DbError) -> (res: (ScrobbleInsertion, Progress<()>))
    ensures
        (res.0@, res.1@) == scrobble_fail(e),
{
    (ScrobbleInsertion::Finished, Progress::Finished(Err(e)))
}

fn enter_track(track_title: String, track_ids: Vec<i32>, album_id: Option<i32>) -> (res: (
    ScrobbleInsertion,
    Progress<()>,
))
    ensures
        (res.0@, res.1@) == scrobble_enter_track(track_title@, track_ids@, album_id),
{
    let new_track = NewTrack {
        title: track_title,
        artist_ids: track_ids,
        length: None,
        album_id,
        album_track_number: Some(0),
    };
    assert(new_track@ == scrobble_track(track_title@, track_ids@, album_id));
    let (track, p) = TrackInsertion::insert_track(new_track);
    match p {
        Progress::Request(r) => (ScrobbleInsertion::Track { album_id, track }, Progress::Request(r)),
        Progress::Finished(Ok(track_id)) => (
            ScrobbleInsertion::AwaitScrobble,
            Progress::Request(DbRequest::InsertScrobble { track_id, album_id }),
        ),
        Progress::Finished(Err(e)) => fail(e),
    }
}

fn album_artists_from(
    track_title: String,
    track_ids: Vec<i32>,
    album_title: String,
    album_artists: Vec<String>,
    ids: Vec<i32>,
) -> (res: (ScrobbleInsertion, Progress<()>))
    ensures
        (res.0@, res.1@) == scrobble_album_artists_from(
            track_title@,
            track_ids@,
            album_title@,
            album_artists.deep_view(),
            ids@,
        ),
{
    if ids.len() < album_artists.len() {
        let (artist, r) = ArtistInsertion::insert_artist(album_artists[ids.len()].as_str());
        (
            ScrobbleInsertion::AlbumArtists {
                track_title,
                track_ids,
                album_title,
                album_artists,
                ids,
                artist,
            },
            Progress::Request(r),
        )
    } else {
        let (album, p) = AlbumInsertion::insert_album(album_title.as_str(), ids.as_slice());
        match p {
            Progress::Request(r) => (
                ScrobbleInsertion::Album { track_title, track_ids, album },
                Progress::Request(r),
            ),
            Progress::Finished(Ok(album_id)) => enter_track(track_title, track_ids, Some(album_id)),
            Progress::Finished(Err(e)) => fail(e),
        }
    }
}

fn enter_album(scrobble: NewScrobble, track_ids: Vec<i32>) -> (res: (
    ScrobbleInsertion,
    Progress<()>,
))
    ensures
        (res.0@, res.1@) == scrobble_enter_album(scrobble@, track_ids@),
{
    match (scrobble.album_title, scrobble.album_artists) {
        (Some(album_title), Some(album_artists)) => album_artists_from(
            scrobble.track_title,
            track_ids,
            album_title,
            album_artists,
            Vec::new(),
        ),
        _ => enter_track(scrobble.track_title, track_ids, None),
    }
}

fn track_artists_from(scrobble: NewScrobble, ids: Vec<i32>) -> (res: (
    ScrobbleInsertion,
    Progress<()>,
))
    ensures
        (res.0@, res.1@) == scrobble_track_artists_from(scrobble@, ids@),
{
    if ids.len() < scrobble.track_artists.len() {
        let (artist, r) = ArtistInsertion::insert_artist(scrobble.track_artists[ids.len()].as_str());
        (ScrobbleInsertion::TrackArtists { scrobble, ids, artist }, Progress::Request(r))
    } else {
        enter_album(scrobble, ids)
    }
}

impl ScrobbleInsertion {
    /// Starts storing `new_scrobble`.
    pub fn insert_scrobble(new_scrobble: NewScrobble) -> (res: (ScrobbleInsertion, DbRequest))
        ensures
            (res.0@, res.1@) == scrobble_start(new_scrobble@),
    {
        (ScrobbleInsertion::AwaitBegin { scrobble: new_scrobble }, DbRequest::Begin)
    }

    /// Feeds the reply to the last request.
    pub fn step(self, reply: DbReply) -> (res: (ScrobbleInsertion, Progress<()>))
        ensures
            (res.0@, res.1@) == scrobble_step(self@, reply),
    {
        match self {
            ScrobbleInsertion::AwaitBegin { scrobble } => match reply {
                DbReply::Executed => track_artists_from(scrobble, Vec::new()),
                _ => fail(DbError::UnexpectedReply),
            },
            ScrobbleInsertion::TrackArtists { scrobble, mut ids, artist } => {
                let (artist2, p) = artist.step(reply);
                match p {
                    Progress::Request(r) => (
                        ScrobbleInsertion::TrackArtists { scrobble, ids, artist: artist2 },
                        Progress::Request(r),
                    ),
                    Progress::Finished(Ok(id)) => {
                        ids.push(id);
                        track_artists_from(scrobble, ids)
                    },
                    Progress::Finished(Err(e)) => fail(e),
                }
            },
            ScrobbleInsertion::AlbumArtists {
                track_title,
                track_ids,
                album_title,
                album_artists,
                mut ids,
                artist,
            } => {
                let (artist2, p) = artist.step(reply);
                match p {
                    Progress::Request(r) => (
                        ScrobbleInsertion::AlbumArtists {
                            track_title,
                            track_ids,
                            album_title,
                            album_artists,
                            ids,
                            artist: artist2,
                        },
                        Progress::Request(r),
                    ),
                    Progress::Finished(Ok(id)) => {
                        ids.push(id);
                        album_artists_from(track_title, track_ids, album_title, album_artists, ids)
                    },
                    Progress::Finished(Err(e)) => fail(e),
                }
            },
            ScrobbleInsertion::Album { track_title, track_ids, album } => {
                let (album2, p) = album.step(reply);
                match p {
                    Progress::Request(r) => (
                        ScrobbleInsertion::Album { track_title, track_ids, album: album2 },
                        Progress::Request(r),
                    ),
                    Progress::Finished(Ok(album_id)) => enter_track(
                        track_title,
                        track_ids,
                        Some(album_id),
                    ),
                    Progress::Finished(Err(e)) => fail(e),
                }
            },
            ScrobbleInsertion::Track { album_id, track } => {
                let (track2, p) = track.step(reply);
                match p {
                    Progress::Request(r) => (
                        ScrobbleInsertion::Track { album_id, track: track2 },
                        Progress::Request(r),
                    ),
                    Progress::Finished(Ok(track_id)) => (
                        ScrobbleInsertion::AwaitScrobble,
                        Progress::Request(DbRequest::InsertScrobble { track_id, album_id }),
                    ),
                    Progress::Finished(Err(e)) => fail(e),
                }
            },
            ScrobbleInsertion::AwaitScrobble => match reply {
                DbReply::Executed => (ScrobbleInsertion::AwaitCommit, Progress::Request(DbRequest::Commit)),
                _ => fail(DbError::UnexpectedReply),
            },
            ScrobbleInsertion::AwaitCommit => match reply {
                DbReply::Executed => (ScrobbleInsertion::Finished, Progress::Finished(Ok(()))),
                _ => fail(DbError::UnexpectedReply),
            },
            ScrobbleInsertion::Finished => fail(DbError::UnexpectedReply),
        }
    }
}

/// The requests issued and the outcome reached when `m` is fed `replies`
/// one after the other, up to the reply that finishes it.
pub open spec fn scrobble_run(m: ScrobbleInsertionModel, replies: Seq<DbReply>) -> (
    Seq<RequestModel>,
    Option<Result<(), DbError>>,
)
    decreases replies.len(),
{
    if replies.len() == 0 {
        (Seq::empty(), None)
    } else {
        let (next, p) = scrobble_step(m, replies[0]);
        match p {
            ProgressModel::Request(r) => {
                let (rest, outcome) = scrobble_run(next, replies.drop_first());
                (seq![r] + rest, outcome)
            },
            ProgressModel::Finished(outcome) => (Seq::empty(), Some(outcome)),
        }
    }
}

/// The requests issued, the first one included, and the outcome reached
/// when storing `s` is answered with `replies`.
pub open spec fn scrobble_session(s: NewScrobbleModel, replies: Seq<DbReply>) -> (
    Seq<RequestModel>,
    Option<Result<(), DbError>>,
) {
    let (m, first) = scrobble_start(s);
    let (rest, outcome) = scrobble_run(m, replies);
    (seq![first] + rest, outcome)
}

/// A request that records a listen.
pub open spec fn records_listen(r: RequestModel) -> bool {
    r is InsertScrobble
}

proof fn scrobble_step_shape(m: ScrobbleInsertionModel, reply: DbReply)
    ensures
        ({
            let (next, p) = scrobble_step(m, reply);
            &&& p == ProgressModel::<()>::Finished(Ok(())) ==> m is AwaitCommit
            &&& next is AwaitCommit ==> p == ProgressModel::<()>::Request(RequestModel::Commit)
            &&& next is AwaitScrobble ==> (p matches ProgressModel::Request(r) && records_listen(r))
        }),
{
}

proof fn scrobble_run_ends_with_listen(m: ScrobbleInsertionModel, replies: Seq<DbReply>)
    ensures
        ({
            let (rs, outcome) = scrobble_run(m, replies);
            outcome == Some(Ok::<(), DbError>(())) ==> {
                ||| m is AwaitCommit && rs.len() == 0
                ||| m is AwaitScrobble && rs == seq![RequestModel::Commit]
                ||| rs.len() >= 2 && records_listen(rs[rs.len() - 2]) && rs[rs.len() - 1]
                    == RequestModel::Commit
            }
        }),
    decreases replies.len(),
{
    if replies.len() > 0 {
        let (next, p) = scrobble_step(m, replies[0]);
        scrobble_step_shape(m, replies[0]);
        scrobble_run_ends_with_listen(next, replies.drop_first());
        match p {
            ProgressModel::Request(r) => {
                let (rest, outcome) = scrobble_run(next, replies.drop_first());
                let rs = seq![r] + rest;
                if outcome == Some(Ok::<(), DbError>(())) {
                    if next is AwaitCommit && rest.len() == 0 {
                        assert(rs =~= seq![RequestModel::Commit]);
                    } else if next is AwaitScrobble && rest == seq![RequestModel::Commit] {
                        assert(rs =~= seq![r, RequestModel::Commit]);
                    } else {
                        assert(rs[rs.len() - 2] == rest[rest.len() - 2]);
                        assert(rs[rs.len() - 1] == rest[rest.len() - 1]);
                    }
                }
            },
            ProgressModel::Finished(_) => {},
        }
    }
}

/// A scrobble is stored inside one transaction: every session that succeeds
/// began by opening it, and ended by recording the listen and then
/// committing.
pub proof fn scrobble_is_one_transaction(s: NewScrobbleModel, replies: Seq<DbReply>)
    ensures
        ({
            let (rs, outcome) = scrobble_session(s, replies);
            outcome == Some(Ok::<(), DbError>(())) ==> {
                &&& rs.len() >= 3
                &&& rs[0] == RequestModel::Begin
                &&& records_listen(rs[rs.len() - 2])
                &&& rs[rs.len() - 1] == RequestModel::Commit
            }
        }),
{
    let (m, first) = scrobble_start(s);
    scrobble_run_ends_with_listen(m, replies);
    let (rest, outcome) = scrobble_run(m, replies);
    if outcome == Some(Ok::<(), DbError>(())) {
        let rs = seq![first] + rest;
        assert(rs[rs.len() - 2] == rest[rest.len() - 2]);
        assert(rs[rs.len() - 1] == rest[rest.len() - 1]);
    }
}

spec fn without_track_artists(m: ScrobbleInsertionModel) -> bool {
    match m {
        ScrobbleInsertionModel::AwaitBegin { scrobble } => scrobble.track_artists.len() == 0,
        ScrobbleInsertionModel::AlbumArtists { track_ids, .. } => track_ids.len() == 0,
        ScrobbleInsertionModel::Album { track_ids, .. } => track_ids.len() == 0,
        ScrobbleInsertionModel::Finished => true,
        _ => false,
    }
}

proof fn without_track_artists_step(m: ScrobbleInsertionModel, reply: DbReply)
    requires
        without_track_artists(m),
    ensures
        ({
            let (next, p) = scrobble_step(m, reply);
            &&& without_track_artists(next)
            &&& p != ProgressModel::<()>::Finished(Ok(()))
            &&& p matches ProgressModel::Request(r) ==> !records_listen(r)
        }),
{
}

proof fn without_track_artists_run(m: ScrobbleInsertionModel, replies: Seq<DbReply>)
    requires
        without_track_artists(m),
    ensures
        ({
            let (rs, outcome) = scrobble_run(m, replies);
            &&& outcome != Some(Ok::<(), DbError>(()))
            &&& forall|i: int| 0 <= i < rs.len() ==> !records_listen(#[trigger] rs[i])
        }),
    decreases replies.len(),
{
    if replies.len() > 0 {
        let (next, p) = scrobble_step(m, replies[0]);
        without_track_artists_step(m, replies[0]);
        without_track_artists_run(next, replies.drop_first());
        if let ProgressModel::Request(r) = p {
            let (rest, outcome) = scrobble_run(next, replies.drop_first());
            let rs = seq![r] + rest;
            assert forall|i: int| 0 <= i < rs.len() implies !records_listen(#[trigger] rs[i]) by {
                if i > 0 {
                    assert(rs[i] == rest[i - 1]);
                }
            }
        }
    }
}

/// A scrobble without track artists is never recorded: whatever the
/// database answers, no listen is inserted and the session never succeeds.
pub proof fn scrobble_needs_track_artists(s: NewScrobbleModel, replies: Seq<DbReply>)
    requires
        s.track_artists.len() == 0,
    ensures
        ({
            let (rs, outcome) = scrobble_session(s, replies);
            &&& outcome != Some(Ok::<(), DbError>(()))
            &&& forall|i: int| 0 <= i < rs.len() ==> !records_listen(#[trigger] rs[i])
        }),
{
    let (m, first) = scrobble_start(s);
    without_track_artists_run(m, replies);
    let (rest, outcome) = scrobble_run(m, replies);
    let rs = seq![first] + rest;
    assert forall|i: int| 0 <= i < rs.len() implies !records_listen(#[trigger] rs[i]) by {
        if i > 0 {
            assert(rs[i] == rest[i - 1]);
        }
    }
}

/// A request that reads or writes albums.
pub open spec fn touches_albums(r: RequestModel) -> bool {
    ||| r is FindAlbum
    ||| r is InsertAlbum
    ||| r is LinkAlbumArtist
    ||| r is LinkAlbumTrack
}

/// A request that records a listen on an album.
pub open spec fn records_listen_on_album(r: RequestModel) -> bool {
    r matches RequestModel::InsertScrobble { album_id, .. } && album_id is Some
}

/// The scrobble names no album: its album title or its album artists are
/// missing.
pub open spec fn names_no_album(s: NewScrobbleModel) -> bool {
    !(s.album_title is Some && s.album_artists is Some)
}

spec fn track_without_album(t: TrackInsertionModel) -> bool {
    match t {
        TrackInsertionModel::AwaitFind { plan } => plan.album is None,
        TrackInsertionModel::AwaitBegin { plan } => plan.album is None,
        TrackInsertionModel::AwaitInsert { plan } => plan.album is None,
        TrackInsertionModel::Linking { plan, .. } => plan.album is None,
        TrackInsertionModel::AwaitAlbumLink { .. } => false,
        _ => true,
    }
}

spec fn without_album(m: ScrobbleInsertionModel) -> bool {
    match m {
        ScrobbleInsertionModel::AwaitBegin { scrobble } => names_no_album(scrobble),
        ScrobbleInsertionModel::TrackArtists { scrobble, .. } => names_no_album(scrobble),
        ScrobbleInsertionModel::AlbumArtists { .. } => false,
        ScrobbleInsertionModel::Album { .. } => false,
        ScrobbleInsertionModel::Track { album_id, track } => album_id is None
            && track_without_album(track),
        _ => true,
    }
}

proof fn without_album_step(m: ScrobbleInsertionModel, reply: DbReply)
    requires
        without_album(m),
    ensures
        ({
            let (next, p) = scrobble_step(m, reply);
            &&& without_album(next)
            &&& p matches ProgressModel::Request(r) ==> !touches_albums(r)
                && !records_listen_on_album(r)
        }),
{
}

proof fn without_album_run(m: ScrobbleInsertionModel, replies: Seq<DbReply>)
    requires
        without_album(m),
    ensures
        ({
            let rs = scrobble_run(m, replies).0;
            forall|i: int|
                0 <= i < rs.len() ==> !touches_albums(#[trigger] rs[i])
                    && !records_listen_on_album(rs[i])
        }),
    decreases replies.len(),
{
    if replies.len() > 0 {
        let (next, p) = scrobble_step(m, replies[0]);
        without_album_step(m, replies[0]);
        without_album_run(next, replies.drop_first());
        if let ProgressModel::Request(r) = p {
            let rest = scrobble_run(next, replies.drop_first()).0;
            let rs = seq![r] + rest;
            assert forall|i: int| 0 <= i < rs.len() implies !touches_albums(#[trigger] rs[i])
                && !records_listen_on_album(rs[i]) by {
                if i > 0 {
                    assert(rs[i] == rest[i - 1]);
                }
            }
        }
    }
}

/// An album is stored only when both its title and its artists are given:
/// otherwise no request reads or writes albums and the listen is recorded
/// without an album.
pub proof fn scrobble_without_album(s: NewScrobbleModel, replies: Seq<DbReply>)
    requires
        names_no_album(s),
    ensures
        ({
            let rs = scrobble_session(s, replies).0;
            forall|i: int|
                0 <= i < rs.len() ==> !touches_albums(#[trigger] rs[i])
                    && !records_listen_on_album(rs[i])
        }),
{
    let (m, first) = scrobble_start(s);
    without_album_run(m, replies);
    let rest = scrobble_run(m, replies).0;
    let rs = seq![first] + rest;
    assert forall|i: int| 0 <= i < rs.len() implies !touches_albums(#[trigger] rs[i])
        && !records_listen_on_album(rs[i]) by {
        if i > 0 {
            assert(rs[i] == rest[i - 1]);
        }
    }
}

/// Lookups that find `ids`, one after the other.
pub open spec fn found_replies(ids: Seq<i32>) -> Seq<DbReply> {
    Seq::new(ids.len(), |i: int| DbReply::Found(Some(ids[i])))
}

/// The lookups of `names`, one after the other.
pub open spec fn artist_lookups(names: Seq<Seq<char>>) -> Seq<RequestModel> {
    Seq::new(names.len(), |i: int| RequestModel::FindArtist { name: names[i] })
}

/// What follows the artist lookups when the track `track_id` is found.
pub open spec fn known_track_tail(title: Seq<char>, ids: Seq<i32>, track_id: i32) -> Seq<
    RequestModel,
> {
    seq![
        RequestModel::FindTrack { title, artist_ids: ids },
        RequestModel::InsertScrobble { track_id, album_id: None },
        RequestModel::Commit,
    ]
}

proof fn known_track_tail_run(title: Seq<char>, ids: Seq<i32>, track_id: i32)
    requires
        ids.len() > 0,
    ensures
        ({
            let (m, p) = scrobble_enter_track(title, ids, None);
            &&& p == ProgressModel::<()>::Request(
                RequestModel::FindTrack { title, artist_ids: ids },
            )
            &&& scrobble_run(
                m,
                seq![DbReply::Found(Some(track_id)), DbReply::Executed, DbReply::Executed],
            ) == (
                known_track_tail(title, ids, track_id).drop_first(),
                Some(Ok::<(), DbError>(())),
            )
        }),
{
    let replies = seq![DbReply::Found(Some(track_id)), DbReply::Executed, DbReply::Executed];
    reveal_with_fuel(scrobble_run, 4);
    assert(replies.drop_first() =~= seq![DbReply::Executed, DbReply::Executed]);
    assert(replies.drop_first().drop_first() =~= seq![DbReply::Executed]);
    assert(replies.drop_first().drop_first().drop_first() =~= Seq::<DbReply>::empty());
    assert(known_track_tail(title, ids, track_id).drop_first() =~= seq![
        RequestModel::InsertScrobble { track_id, album_id: None },
        RequestModel::Commit,
    ]);
    assert(seq![RequestModel::Commit] + Seq::<RequestModel>::empty() =~= seq![
        RequestModel::Commit,
    ]);
}

proof fn known_artists_run(s: NewScrobbleModel, ids: Seq<i32>, track_id: i32, k: int)
    requires
        s.track_artists.len() == ids.len(),
        0 <= k < ids.len(),
        names_no_album(s),
    ensures
        scrobble_run(
            ScrobbleInsertionModel::TrackArtists {
                scrobble: s,
                ids: ids.take(k),
                artist: ArtistInsertionModel::AwaitFind { name: s.track_artists[k] },
            },
            found_replies(ids).skip(k) + seq![
                DbReply::Found(Some(track_id)),
                DbReply::Executed,
                DbReply::Executed,
            ],
        ) == (
            artist_lookups(s.track_artists).skip(k + 1) + known_track_tail(
                s.track_title,
                ids,
                track_id,
            ),
            Some(Ok::<(), DbError>(())),
        ),
    decreases ids.len() - k,
{
    let tail_replies = seq![DbReply::Found(Some(track_id)), DbReply::Executed, DbReply::Executed];
    let replies = found_replies(ids).skip(k) + tail_replies;
    let m = ScrobbleInsertionModel::TrackArtists {
        scrobble: s,
        ids: ids.take(k),
        artist: ArtistInsertionModel::AwaitFind { name: s.track_artists[k] },
    };
    assert(replies[0] == DbReply::Found(Some(ids[k])));
    assert(ids.take(k).push(ids[k]) =~= ids.take(k + 1));
    reveal_with_fuel(scrobble_run, 2);
    if k + 1 < ids.len() {
        known_artists_run(s, ids, track_id, k + 1);
        assert(replies.drop_first() =~= found_replies(ids).skip(k + 1) + tail_replies);
        let rest = artist_lookups(s.track_artists).skip(k + 2) + known_track_tail(
            s.track_title,
            ids,
            track_id,
        );
        assert(seq![RequestModel::FindArtist { name: s.track_artists[k + 1] }] + rest
            =~= artist_lookups(s.track_artists).skip(k + 1) + known_track_tail(
            s.track_title,
            ids,
            track_id,
        ));
    } else {
        assert(ids.take(k + 1) =~= ids);
        known_track_tail_run(s.track_title, ids, track_id);
        assert(replies.drop_first() =~= tail_replies);
        assert(artist_lookups(s.track_artists).skip(k + 1) =~= Seq::<RequestModel>::empty());
        let tail = known_track_tail(s.track_title, ids, track_id);
        assert(seq![tail[0]] + tail.drop_first() =~= tail);
        assert(Seq::<RequestModel>::empty() + tail =~= tail);
    }
}

/// A listen of a track that is already stored, by artists that are already
/// stored and with no album: the artists are looked up in order, the track
/// is looked up by exactly the ids they resolved to, and the listen is
/// recorded for the found track, with no album, before the commit.
pub proof fn scrobble_of_known_track(s: NewScrobbleModel, ids: Seq<i32>, track_id: i32)
    requires
        s.track_artists.len() == ids.len(),
        ids.len() > 0,
        names_no_album(s),
    ensures
        scrobble_session(
            s,
            seq![DbReply::Executed] + found_replies(ids) + seq![
                DbReply::Found(Some(track_id)),
                DbReply::Executed,
                DbReply::Executed,
            ],
        ) == (
            seq![RequestModel::Begin] + artist_lookups(s.track_artists) + known_track_tail(
                s.track_title,
                ids,
                track_id,
            ),
            Some(Ok::<(), DbError>(())),
        ),
{
    let tail_replies = seq![DbReply::Found(Some(track_id)), DbReply::Executed, DbReply::Executed];
    let replies = seq![DbReply::Executed] + found_replies(ids) + tail_replies;
    known_artists_run(s, ids, track_id, 0);
    reveal_with_fuel(scrobble_run, 2);
    assert(ids.take(0) =~= Seq::<i32>::empty());
    assert(found_replies(ids).skip(0) =~= found_replies(ids));
    assert(replies.drop_first() =~= found_replies(ids) + tail_replies);
    let lookups = artist_lookups(s.track_artists);
    assert(seq![lookups[0]] + lookups.skip(1) =~= lookups);
    let tail = known_track_tail(s.track_title, ids, track_id);
    assert(seq![RequestModel::Begin] + (seq![lookups[0]] + (lookups.skip(1) + tail)) =~= seq![
        RequestModel::Begin,
    ] + lookups + tail);
}

} // verus!
