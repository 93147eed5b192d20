//! A model of the database the storing operations run against: its rows,
//! its open transactions, what it answers to each request, and what a whole
//! operation does to it. The laws here relate two operations run one after
//! the other, and say what an operation that gives up leaves behind.

use vstd::prelude::*;

use crate::db::album::{album_link_from, album_start, album_step, AlbumInsertionModel};
use crate::db::artist::{artist_start, artist_step, ArtistInsertionModel};
use crate::db::track::{
    track_link_from, track_plan, track_start, track_step, NewTrackModel, TrackInsertionModel,
    TrackPlanModel,
};
use crate::db::{DbError, DbReply, ProgressModel, RequestModel};

verus! {

/// The rows of the database. Ids come from one serial counter per table.
pub struct Tables {
    /// Artist id to (name, slug).
    pub artists: Map<i32, (Seq<char>, Seq<char>)>,
    pub next_artist: int,
    /// Album id to (title, slug).
    pub albums: Map<i32, (Seq<char>, Seq<char>)>,
    pub next_album: int,
    /// (album id, artist id, artist order).
    pub album_artists: Seq<(i32, i32, i32)>,
    /// Track id to (title, slug, length).
    pub tracks: Map<i32, (Seq<char>, Seq<char>, Option<i32>)>,
    pub next_track: int,
    /// (track id, artist id, artist order).
    pub track_artists: Seq<(i32, i32, i32)>,
    /// (album id, track id, track number).
    pub album_tracks: Seq<(i32, i32, i32)>,
    /// (track id, album id) of every listen.
    pub scrobbles: Seq<(i32, Option<i32>)>,
    /// How many transactions are open, the outermost one and its savepoints.
    pub depth: nat,
    /// The database as it was when the outermost open transaction began.
    pub saved: Option<Box<Tables>>,
}

/// The counters are ahead of every id in use, rows credited to an album or
/// a track name one that was handed out, and the counters start at 1.
pub open spec fn tables_wf(db: Tables) -> bool {
    &&& db.next_artist >= 1
    &&& db.next_album >= 1
    &&& db.next_track >= 1
    &&& forall|id: i32| #[trigger] db.artists.contains_key(id) ==> id < db.next_artist
    &&& forall|id: i32| #[trigger] db.albums.contains_key(id) ==> id < db.next_album
    &&& forall|id: i32| #[trigger] db.tracks.contains_key(id) ==> id < db.next_track
    &&& forall|k: int|
        0 <= k < db.album_artists.len() ==> #[trigger] db.album_artists[k].0 < db.next_album
    &&& forall|k: int|
        0 <= k < db.track_artists.len() ==> #[trigger] db.track_artists[k].0 < db.next_track
    &&& (db.depth == 0) == (db.saved is None)
}

/// No transaction is open.
pub open spec fn idle(db: Tables) -> bool {
    db.depth == 0
}

/// The database after a transaction, or a savepoint inside one, begins.
pub open spec fn begun(db: Tables) -> Tables {
    Tables {
        depth: db.depth + 1,
        saved: if db.depth == 0 {
            Some(Box::new(db))
        } else {
            db.saved
        },
        ..db
    }
}

/// The database after the innermost open transaction commits: its writes
/// stay. With none open, nothing happens.
pub open spec fn committed(db: Tables) -> Tables {
    if db.depth == 0 {
        db
    } else {
        Tables {
            depth: (db.depth - 1) as nat,
            saved: if db.depth == 1 {
                None
            } else {
                db.saved
            },
            ..db
        }
    }
}

/// The database after an operation that gave up is abandoned: an open
/// transaction is rolled back as a whole, so every row is as it was when
/// it began. The serial counters are not rolled back: ids handed out are
/// not handed out again.
pub open spec fn abandoned(db: Tables) -> Tables {
    match db.saved {
        Some(before) => Tables {
            next_artist: db.next_artist,
            next_album: db.next_album,
            next_track: db.next_track,
            ..*before
        },
        None => db,
    }
}

/// `db1` holds the rows of `db0`; only the serial counters may differ.
pub open spec fn same_rows(db1: Tables, db0: Tables) -> bool {
    db1 == Tables {
        next_artist: db1.next_artist,
        next_album: db1.next_album,
        next_track: db1.next_track,
        ..db0
    }
}

/// Exactly one id satisfies `p`.
pub open spec fn unique(p: spec_fn(i32) -> bool) -> bool {
    exists|id: i32| #[trigger] p(id) && forall|j: i32| #[trigger] p(j) ==> j == id
}

/// The answer to a lookup that returns at most one row: nothing when no
/// row matches, the matching id when one does, and an error (`None`) when
/// several do.
pub open spec fn lookup(p: spec_fn(i32) -> bool) -> Option<DbReply> {
    if forall|j: i32| !#[trigger] p(j) {
        Some(DbReply::Found(None))
    } else if unique(p) {
        Some(DbReply::Found(Some(choose|id: i32| #[trigger] p(id))))
    } else {
        None
    }
}

/// The artist `id` is named `name`.
pub open spec fn artist_matches(db: Tables, id: i32, name: Seq<char>) -> bool {
    db.artists.contains_key(id) && db.artists[id].0 == name
}

/// The album `album` credits the artist `artist`.
pub open spec fn album_credits(db: Tables, album: i32, artist: i32) -> bool {
    exists|k: int|
        0 <= k < db.album_artists.len() && #[trigger] db.album_artists[k] == (
            album,
            artist,
            db.album_artists[k].2,
        )
}

/// The album lookup: the album has this title and, among the given artists,
/// as many distinct ones credited as there are given ones.
pub open spec fn album_matches(db: Tables, id: i32, title: Seq<char>, artist_ids: Seq<i32>) -> bool {
    &&& db.albums.contains_key(id)
    &&& db.albums[id].0 == title
    &&& artist_ids.len() > 0
    &&& artist_ids.no_duplicates()
    &&& forall|i: int| 0 <= i < artist_ids.len() ==> album_credits(db, id, #[trigger] artist_ids[i])
}

/// The artists credited on the track `track`.
pub open spec fn track_credits(db: Tables, track: i32) -> Set<i32> {
    Set::new(
        |artist: i32|
            exists|k: int|
                0 <= k < db.track_artists.len() && #[trigger] db.track_artists[k] == (
                    track,
                    artist,
                    db.track_artists[k].2,
                ),
    )
}

/// The track lookup: the track has this title, and its distinct credited
/// artists include the given ones and are as many as they are.
pub open spec fn track_matches(db: Tables, id: i32, title: Seq<char>, artist_ids: Seq<i32>) -> bool {
    &&& db.tracks.contains_key(id)
    &&& db.tracks[id].0 == title
    &&& artist_ids.len() > 0
    &&& artist_ids.to_set().subset_of(track_credits(db, id))
    &&& track_credits(db, id).len() == artist_ids.len()
}

/// What the database answers to a request, and its rows afterwards; `None`
/// for an error (a lookup with several rows, a serial counter run out).
/// Every write is seen at once by the requests that follow it; whether it
/// stays is decided when the transaction it was made in commits or is
/// abandoned.
pub open spec fn answer(db: Tables, r: RequestModel) -> Option<(Tables, DbReply)> {
    match r {
        RequestModel::Begin => Some((begun(db), DbReply::Executed)),
        RequestModel::Commit => Some((committed(db), DbReply::Executed)),
        RequestModel::FindArtist { name } => match lookup(|id: i32| artist_matches(db, id, name)) {
            Some(reply) => Some((db, reply)),
            None => None,
        },
        RequestModel::InsertArtist { name, slug } => if db.next_artist <= i32::MAX {
            Some(
                (
                    Tables {
                        artists: db.artists.insert(db.next_artist as i32, (name, slug)),
                        next_artist: db.next_artist + 1,
                        ..db
                    },
                    DbReply::Created(db.next_artist as i32),
                ),
            )
        } else {
            None
        },
        RequestModel::FindAlbum { title, artist_ids } => match lookup(
            |id: i32| album_matches(db, id, title, artist_ids),
        ) {
            Some(reply) => Some((db, reply)),
            None => None,
        },
        RequestModel::InsertAlbum { title, slug } => if db.next_album <= i32::MAX {
            Some(
                (
                    Tables {
                        albums: db.albums.insert(db.next_album as i32, (title, slug)),
                        next_album: db.next_album + 1,
                        ..db
                    },
                    DbReply::Created(db.next_album as i32),
                ),
            )
        } else {
            None
        },
        RequestModel::LinkAlbumArtist { album_id, artist_id, artist_order } => Some(
            (
                Tables {
                    album_artists: db.album_artists.push((album_id, artist_id, artist_order)),
                    ..db
                },
                DbReply::Executed,
            ),
        ),
        RequestModel::FindTrack { title, artist_ids } => match lookup(
            |id: i32| track_matches(db, id, title, artist_ids),
        ) {
            Some(reply) => Some((db, reply)),
            None => None,
        },
        RequestModel::InsertTrack { title, slug, length } => if db.next_track <= i32::MAX {
            Some(
                (
                    Tables {
                        tracks: db.tracks.insert(db.next_track as i32, (title, slug, length)),
                        next_track: db.next_track + 1,
                        ..db
                    },
                    DbReply::Created(db.next_track as i32),
                ),
            )
        } else {
            None
        },
        RequestModel::LinkTrackArtist { track_id, artist_id, artist_order } => Some(
            (
                Tables {
                    track_artists: db.track_artists.push((track_id, artist_id, artist_order)),
                    ..db
                },
                DbReply::Executed,
            ),
        ),
        RequestModel::LinkAlbumTrack { album_id, track_id, track_number } => Some(
            (
                Tables {
                    album_tracks: db.album_tracks.push((album_id, track_id, track_number)),
                    ..db
                },
                DbReply::Executed,
            ),
        ),
        RequestModel::InsertScrobble { track_id, album_id } => Some(
            (Tables { scrobbles: db.scrobbles.push((track_id, album_id)), ..db }, DbReply::Executed),
        ),
    }
}

proof fn lookup_unique(p: spec_fn(i32) -> bool, id: i32)
    requires
        p(id),
        forall|j: i32| #[trigger] p(j) ==> j == id,
    ensures
        lookup(p) == Some(DbReply::Found(Some(id))),
{
    assert(unique(p));
    let c = choose|c: i32| #[trigger] p(c);
    assert(p(c));
}

proof fn lookup_none(p: spec_fn(i32) -> bool)
    requires
        forall|j: i32| !#[trigger] p(j),
    ensures
        lookup(p) == Some(DbReply::Found(None)),
{
}

pub(crate) proof fn lookup_found(p: spec_fn(i32) -> bool, id: i32)
    requires
        lookup(p) == Some(DbReply::Found(Some(id))),
    ensures
        p(id),
        forall|j: i32| #[trigger] p(j) ==> j == id,
{
    let c = choose|c: i32| #[trigger] p(c);
    assert(unique(p));
    let w = choose|w: i32| #[trigger] p(w) && forall|j: i32| #[trigger] p(j) ==> j == w;
    assert(p(c));
}

/// Runs an artist insertion from state `m`, which last issued `p`, against
/// `db`, for at most `fuel` requests: the rows at the end and the outcome
/// (`None` when the database failed or the requests ran out).
#[verifier::opaque]
pub open spec fn artist_drive(
    db: Tables,
    m: ArtistInsertionModel,
    p: ProgressModel<i32>,
    fuel: nat,
) -> (Tables, Option<Result<i32, DbError>>)
    decreases fuel,
{
    match p {
        ProgressModel::Finished(outcome) => (db, Some(outcome)),
        ProgressModel::Request(r) => if fuel == 0 {
            (db, None)
        } else {
            match answer(db, r) {
                None => (db, None),
                Some((db2, reply)) => {
                    let (m2, p2) = artist_step(m, reply);
                    artist_drive(db2, m2, p2, (fuel - 1) as nat)
                },
            }
        },
    }
}

pub(crate) proof fn artist_drive_request(
    db: Tables,
    m: ArtistInsertionModel,
    r: RequestModel,
    fuel: nat,
    db2: Tables,
    reply: DbReply,
)
    requires
        fuel > 0,
        answer(db, r) == Some((db2, reply)),
    ensures
        artist_drive(db, m, ProgressModel::Request(r), fuel) == artist_drive(
            db2,
            artist_step(m, reply).0,
            artist_step(m, reply).1,
            (fuel - 1) as nat,
        ),
{
    reveal_with_fuel(artist_drive, 1);
}

pub(crate) proof fn artist_drive_basics(db: Tables, m: ArtistInsertionModel, p: ProgressModel<i32>, fuel: nat)
    ensures
        p matches ProgressModel::Finished(o) ==> artist_drive(db, m, p, fuel) == (db, Some(o)),
        (p is Request && fuel == 0) ==> artist_drive(db, m, p, fuel) == (
            db,
            None::<Result<i32, DbError>>,
        ),
        (p matches ProgressModel::Request(r) && answer(db, r) is None) ==> artist_drive(
            db,
            m,
            p,
            fuel,
        ) == (db, None::<Result<i32, DbError>>),
{
    reveal_with_fuel(artist_drive, 1);
}

/// Storing the artist `name` against `db`.
pub open spec fn artist_stored(db: Tables, name: Seq<char>, fuel: nat) -> (
    Tables,
    Option<Result<i32, DbError>>,
) {
    let (m, r) = artist_start(name);
    artist_drive(db, m, ProgressModel::Request(r), fuel)
}

/// After the artist `name` was stored with id `id`, the lookup of `name`
/// finds exactly `id`, the artist `id` is named `name`, and storing `name`
/// again gives `id` and changes nothing.
pub proof fn artist_twice(db0: Tables, name: Seq<char>, fuel: nat, fuel2: nat)
    requires
        tables_wf(db0),
        artist_stored(db0, name, fuel).1 matches Some(Ok(_)),
        fuel2 >= 1,
    ensures
        ({
            let (db1, outcome) = artist_stored(db0, name, fuel);
            let id = outcome->0->Ok_0;
            &&& tables_wf(db1)
            &&& answer(db1, RequestModel::FindArtist { name }) == Some(
                (db1, DbReply::Found(Some(id))),
            )
            &&& db1.artists[id].0 == name
            &&& artist_stored(db1, name, fuel2) == (db1, Some(Ok::<i32, DbError>(id)))
        }),
{
    let (db1, outcome) = artist_stored(db0, name, fuel);
    let id = outcome->0->Ok_0;
    let p0 = |j: i32| artist_matches(db0, j, name);
    let p1 = |j: i32| artist_matches(db1, j, name);
    reveal_with_fuel(artist_drive, 3);
    match lookup(p0) {
        Some(DbReply::Found(Some(c))) => {
            lookup_found(p0, c);
            assert(db1 == db0);
            assert(id == c);
        },
        Some(DbReply::Found(None)) => {
            let m1 = ArtistInsertionModel::AwaitInsert { name };
            assert(db0.next_artist <= i32::MAX);
            let n = db0.next_artist as i32;
            assert(id == n);
            assert(db1.artists == db0.artists.insert(n, (name, crate::db::slugify_result(name))));
            assert forall|j: i32| #[trigger] p1(j) implies j == id by {
                if j != n {
                    assert(p0(j));
                }
            }
            assert(p1(id));
            lookup_unique(p1, id);
        },
        _ => {},
    }
    assert(p1(id));
    assert forall|j: i32| #[trigger] p1(j) implies j == id by {
        if lookup(p0) == Some(DbReply::Found(Some(id))) {
            lookup_found(p0, id);
            assert(p0(j));
        } else {
            if j != id {
                assert(p0(j));
            }
        }
    }
    lookup_unique(p1, id);
}

/// Runs an album insertion from state `m`, which last issued `p`, against
/// `db`, for at most `fuel` requests.
#[verifier::opaque]
pub open spec fn album_drive(
    db: Tables,
    m: AlbumInsertionModel,
    p: ProgressModel<i32>,
    fuel: nat,
) -> (Tables, Option<Result<i32, DbError>>)
    decreases fuel,
{
    match p {
        ProgressModel::Finished(outcome) => (db, Some(outcome)),
        ProgressModel::Request(r) => if fuel == 0 {
            (db, None)
        } else {
            match answer(db, r) {
                None => (db, None),
                Some((db2, reply)) => {
                    let (m2, p2) = album_step(m, reply);
                    album_drive(db2, m2, p2, (fuel - 1) as nat)
                },
            }
        },
    }
}

pub(crate) proof fn album_drive_request(
    db: Tables,
    m: AlbumInsertionModel,
    r: RequestModel,
    fuel: nat,
    db2: Tables,
    reply: DbReply,
)
    requires
        fuel > 0,
        answer(db, r) == Some((db2, reply)),
    ensures
        album_drive(db, m, ProgressModel::Request(r), fuel) == album_drive(
            db2,
            album_step(m, reply).0,
            album_step(m, reply).1,
            (fuel - 1) as nat,
        ),
{
    reveal_with_fuel(album_drive, 1);
}

pub(crate) proof fn album_drive_basics(db: Tables, m: AlbumInsertionModel, p: ProgressModel<i32>, fuel: nat)
    ensures
        p matches ProgressModel::Finished(o) ==> album_drive(db, m, p, fuel) == (db, Some(o)),
        (p is Request && fuel == 0) ==> album_drive(db, m, p, fuel) == (
            db,
            None::<Result<i32, DbError>>,
        ),
        (p matches ProgressModel::Request(r) && answer(db, r) is None) ==> album_drive(
            db,
            m,
            p,
            fuel,
        ) == (db, None::<Result<i32, DbError>>),
{
    reveal_with_fuel(album_drive, 1);
}

/// Storing the album `title` of `artist_ids` against `db`.
pub open spec fn album_stored(db: Tables, title: Seq<char>, artist_ids: Seq<i32>, fuel: nat) -> (
    Tables,
    Option<Result<i32, DbError>>,
) {
    let (m, p) = album_start(title, artist_ids);
    album_drive(db, m, p, fuel)
}

/// The credit rows of `artist_ids` on the album `album`.
pub open spec fn album_rows(album: i32, artist_ids: Seq<i32>) -> Seq<(i32, i32, i32)> {
    Seq::new(artist_ids.len(), |k: int| (album, artist_ids[k], 0i32))
}

proof fn album_link_drive(db: Tables, album: i32, artist_ids: Seq<i32>, next: int, fuel: nat)
    requires
        0 <= next <= artist_ids.len(),
    ensures
        ({
            let now = Tables {
                album_artists: db.album_artists + album_rows(album, artist_ids.take(next)),
                ..db
            };
            let (m, p) = album_link_from(album, artist_ids, next);
            let (end, outcome) = album_drive(now, m, p, fuel);
            &&& outcome matches Some(Ok(_)) ==> (end, outcome) == (
                Tables {
                    album_artists: db.album_artists + album_rows(album, artist_ids),
                    ..committed(db)
                },
                Some(Ok::<i32, DbError>(album)),
            )
            &&& !(outcome matches Some(Ok(_))) ==> end.depth == db.depth && end.saved == db.saved
        }),
    decreases artist_ids.len() - next,
{
    let now = Tables {
        album_artists: db.album_artists + album_rows(album, artist_ids.take(next)),
        ..db
    };
    let (m, p) = album_link_from(album, artist_ids, next);
    album_drive_basics(now, m, p, fuel);
    if fuel > 0 {
        if next == artist_ids.len() {
            assert(artist_ids.take(next) =~= artist_ids);
            assert(p == ProgressModel::<i32>::Request(RequestModel::Commit));
            let after = committed(now);
            assert(after == Tables {
                album_artists: db.album_artists + album_rows(album, artist_ids),
                ..committed(db)
            });
            assert(answer(now, RequestModel::Commit) == Some((after, DbReply::Executed)));
            let done = (AlbumInsertionModel::Finished, ProgressModel::<i32>::Finished(Ok(album)));
            assert(album_step(m, DbReply::Executed) == done);
            album_drive_request(now, m, RequestModel::Commit, fuel, after, DbReply::Executed);
            album_drive_basics(after, done.0, done.1, (fuel - 1) as nat);
        } else {
            let r = RequestModel::LinkAlbumArtist {
                album_id: album,
                artist_id: artist_ids[next],
                artist_order: 0,
            };
            let row = (album, artist_ids[next], 0i32);
            let now2 = Tables { album_artists: now.album_artists.push(row), ..now };
            assert(p == ProgressModel::<i32>::Request(r));
            assert(answer(now, r) == Some((now2, DbReply::Executed)));
            assert(album_step(m, DbReply::Executed) == album_link_from(album, artist_ids, next + 1));
            assert(now.album_artists.push(row) =~= db.album_artists + album_rows(
                album,
                artist_ids.take(next + 1),
            ));
            album_drive_request(now, m, r, fuel, now2, DbReply::Executed);
            album_link_drive(db, album, artist_ids, next + 1, (fuel - 1) as nat);
        }
    }
}

/// The rows after a new album `title` of `artist_ids` was inserted and
/// credited.
pub open spec fn album_inserted(db: Tables, title: Seq<char>, artist_ids: Seq<i32>) -> Tables {
    let n = db.next_album as i32;
    Tables {
        albums: db.albums.insert(n, (title, crate::db::slugify_result(title))),
        next_album: db.next_album + 1,
        album_artists: db.album_artists + album_rows(n, artist_ids),
        ..db
    }
}

proof fn album_insert_trace(db0: Tables, title: Seq<char>, artist_ids: Seq<i32>, fuel: nat)
    requires
        tables_wf(db0),
        artist_ids.len() > 0,
        lookup(|j: i32| album_matches(db0, j, title, artist_ids)) == Some(DbReply::Found(None)),
        album_stored(db0, title, artist_ids, fuel).1 matches Some(Ok(_)),
    ensures
        db0.next_album <= i32::MAX,
        album_stored(db0, title, artist_ids, fuel) == (
            album_inserted(db0, title, artist_ids),
            Some(Ok::<i32, DbError>(db0.next_album as i32)),
        ),
{
    let slug = crate::db::slugify_result(title);
    let find = RequestModel::FindAlbum { title, artist_ids };
    let insert = RequestModel::InsertAlbum { title, slug };
    let m0 = AlbumInsertionModel::AwaitFind { title, artist_ids };
    let m1 = AlbumInsertionModel::AwaitBegin { title, artist_ids };
    let m2 = AlbumInsertionModel::AwaitInsert { title, artist_ids };
    let p0 = ProgressModel::<i32>::Request(find);
    let p1 = ProgressModel::<i32>::Request(RequestModel::Begin);
    let p2 = ProgressModel::<i32>::Request(insert);
    assert(album_start(title, artist_ids) == (m0, p0));
    assert(answer(db0, find) == Some((db0, DbReply::Found(None))));
    assert(album_step(m0, DbReply::Found(None)) == (m1, p1));
    let dbb = begun(db0);
    assert(answer(db0, RequestModel::Begin) == Some((dbb, DbReply::Executed)));
    assert(album_step(m1, DbReply::Executed) == (m2, p2));
    album_drive_basics(db0, m0, p0, fuel);
    album_drive_request(db0, m0, find, fuel, db0, DbReply::Found(None));
    album_drive_basics(db0, m1, p1, (fuel - 1) as nat);
    album_drive_request(db0, m1, RequestModel::Begin, (fuel - 1) as nat, dbb, DbReply::Executed);
    album_drive_basics(dbb, m2, p2, (fuel - 2) as nat);
    assert(db0.next_album <= i32::MAX);
    let n = db0.next_album as i32;
    let dba = Tables {
        albums: db0.albums.insert(n, (title, slug)),
        next_album: db0.next_album + 1,
        ..dbb
    };
    assert(answer(dbb, insert) == Some((dba, DbReply::Created(n))));
    assert(album_step(m2, DbReply::Created(n)) == album_link_from(n, artist_ids, 0));
    album_drive_request(dbb, m2, insert, (fuel - 2) as nat, dba, DbReply::Created(n));
    album_link_drive(dba, n, artist_ids, 0, (fuel - 3) as nat);
    assert(committed(dba) == Tables {
        albums: db0.albums.insert(n, (title, slug)),
        next_album: db0.next_album + 1,
        ..db0
    });
    assert(dba.album_artists + album_rows(n, artist_ids.take(0)) =~= dba.album_artists);
    assert(Tables { album_artists: dba.album_artists + album_rows(n, artist_ids.take(0)), ..dba }
        == dba);
}

proof fn album_inserted_lookup(db0: Tables, title: Seq<char>, artist_ids: Seq<i32>)
    requires
        tables_wf(db0),
        artist_ids.len() > 0,
        artist_ids.no_duplicates(),
        db0.next_album <= i32::MAX,
        lookup(|j: i32| album_matches(db0, j, title, artist_ids)) == Some(DbReply::Found(None)),
    ensures
        ({
            let db1 = album_inserted(db0, title, artist_ids);
            &&& tables_wf(db1)
            &&& lookup(|j: i32| album_matches(db1, j, title, artist_ids)) == Some(
                DbReply::Found(Some(db0.next_album as i32)),
            )
        }),
{
    let db1 = album_inserted(db0, title, artist_ids);
    let n = db0.next_album as i32;
    let p0 = |j: i32| album_matches(db0, j, title, artist_ids);
    let p1 = |j: i32| album_matches(db1, j, title, artist_ids);
    let base = db0.album_artists.len();
    assert forall|i: int| 0 <= i < artist_ids.len() implies album_credits(
        db1,
        n,
        #[trigger] artist_ids[i],
    ) by {
        assert(db1.album_artists[base + i] == (n, artist_ids[i], 0i32));
    }
    assert(p1(n));
    assert forall|j: i32| #[trigger] p1(j) implies j == n by {
        if j != n {
            assert forall|i: int| 0 <= i < artist_ids.len() implies album_credits(
                db0,
                j,
                #[trigger] artist_ids[i],
            ) by {
                assert(album_credits(db1, j, artist_ids[i]));
                let k = choose|k: int|
                    0 <= k < db1.album_artists.len() && #[trigger] db1.album_artists[k] == (
                        j,
                        artist_ids[i],
                        db1.album_artists[k].2,
                    );
                if k >= base {
                    assert(db1.album_artists[k].0 == n);
                } else {
                    assert(db0.album_artists[k] == db1.album_artists[k]);
                }
            }
            assert(p0(j));
        }
    }
    lookup_unique(p1, n);
    assert forall|k: int| 0 <= k < db1.album_artists.len() implies #[trigger] db1.album_artists[k].0
        < db1.next_album by {
        if k < base {
            assert(db1.album_artists[k] == db0.album_artists[k]);
        }
    }
}

/// After the album `title` of the distinct artists `artist_ids` was stored
/// with id `id`, its lookup finds exactly `id`, and storing it again gives
/// `id` and changes nothing.
pub proof fn album_twice(
    db0: Tables,
    title: Seq<char>,
    artist_ids: Seq<i32>,
    fuel: nat,
    fuel2: nat,
)
    requires
        tables_wf(db0),
        artist_ids.no_duplicates(),
        album_stored(db0, title, artist_ids, fuel).1 matches Some(Ok(_)),
        fuel2 >= 1,
    ensures
        ({
            let (db1, outcome) = album_stored(db0, title, artist_ids, fuel);
            let id = outcome->0->Ok_0;
            &&& tables_wf(db1)
            &&& answer(db1, RequestModel::FindAlbum { title, artist_ids }) == Some(
                (db1, DbReply::Found(Some(id))),
            )
            &&& forall|i: int|
                0 <= i < artist_ids.len() ==> album_credits(db1, id, #[trigger] artist_ids[i])
            &&& album_stored(db1, title, artist_ids, fuel2) == (db1, Some(Ok::<i32, DbError>(id)))
        }),
{
    let (db1, outcome) = album_stored(db0, title, artist_ids, fuel);
    let id = outcome->0->Ok_0;
    let find = RequestModel::FindAlbum { title, artist_ids };
    let m0 = AlbumInsertionModel::AwaitFind { title, artist_ids };
    let p0 = |j: i32| album_matches(db0, j, title, artist_ids);
    if artist_ids.len() == 0 {
        album_drive_basics(
            db0,
            AlbumInsertionModel::Finished,
            ProgressModel::Finished(Err(DbError::NoArtists)),
            fuel,
        );
    }
    assert(artist_ids.len() > 0);
    assert(album_start(title, artist_ids) == (m0, ProgressModel::<i32>::Request(find)));
    album_drive_basics(db0, m0, ProgressModel::Request(find), fuel);
    match lookup(p0) {
        Some(DbReply::Found(Some(c))) => {
            assert(answer(db0, find) == Some((db0, DbReply::Found(Some(c)))));
            album_drive_request(db0, m0, find, fuel, db0, DbReply::Found(Some(c)));
            album_drive_basics(
                db0,
                AlbumInsertionModel::Finished,
                ProgressModel::Finished(Ok(c)),
                (fuel - 1) as nat,
            );
            assert(db1 == db0);
            assert(id == c);
        },
        Some(DbReply::Found(None)) => {
            album_insert_trace(db0, title, artist_ids, fuel);
            album_inserted_lookup(db0, title, artist_ids);
        },
        _ => {
            assert(answer(db0, find) is None);
        },
    }
    let p1 = |j: i32| album_matches(db1, j, title, artist_ids);
    assert(lookup(p1) == Some(DbReply::Found(Some(id))));
    lookup_found(p1, id);
    assert(answer(db1, find) == Some((db1, DbReply::Found(Some(id)))));
    album_drive_request(db1, m0, find, fuel2, db1, DbReply::Found(Some(id)));
    album_drive_basics(
        db1,
        AlbumInsertionModel::Finished,
        ProgressModel::Finished(Ok(id)),
        (fuel2 - 1) as nat,
    );
}

/// Runs a track insertion from state `m`, which last issued `p`, against
/// `db`, for at most `fuel` requests.
#[verifier::opaque]
pub open spec fn track_drive(
    db: Tables,
    m: TrackInsertionModel,
    p: ProgressModel<i32>,
    fuel: nat,
) -> (Tables, Option<Result<i32, DbError>>)
    decreases fuel,
{
    match p {
        ProgressModel::Finished(outcome) => (db, Some(outcome)),
        ProgressModel::Request(r) => if fuel == 0 {
            (db, None)
        } else {
            match answer(db, r) {
                None => (db, None),
                Some((db2, reply)) => {
                    let (m2, p2) = track_step(m, reply);
                    track_drive(db2, m2, p2, (fuel - 1) as nat)
                },
            }
        },
    }
}

pub(crate) proof fn track_drive_request(
    db: Tables,
    m: TrackInsertionModel,
    r: RequestModel,
    fuel: nat,
    db2: Tables,
    reply: DbReply,
)
    requires
        fuel > 0,
        answer(db, r) == Some((db2, reply)),
    ensures
        track_drive(db, m, ProgressModel::Request(r), fuel) == track_drive(
            db2,
            track_step(m, reply).0,
            track_step(m, reply).1,
            (fuel - 1) as nat,
        ),
{
    reveal_with_fuel(track_drive, 1);
}

pub(crate) proof fn track_drive_basics(db: Tables, m: TrackInsertionModel, p: ProgressModel<i32>, fuel: nat)
    ensures
        p matches ProgressModel::Finished(o) ==> track_drive(db, m, p, fuel) == (db, Some(o)),
        (p is Request && fuel == 0) ==> track_drive(db, m, p, fuel) == (
            db,
            None::<Result<i32, DbError>>,
        ),
        (p matches ProgressModel::Request(r) && answer(db, r) is None) ==> track_drive(
            db,
            m,
            p,
            fuel,
        ) == (db, None::<Result<i32, DbError>>),
{
    reveal_with_fuel(track_drive, 1);
}

/// Storing the track `t` against `db`.
pub open spec fn track_stored(db: Tables, t: NewTrackModel, fuel: nat) -> (
    Tables,
    Option<Result<i32, DbError>>,
) {
    let (m, p) = track_start(t);
    track_drive(db, m, p, fuel)
}

/// The credit rows of `artist_ids` on the track `track`.
pub open spec fn track_rows(track: i32, artist_ids: Seq<i32>) -> Seq<(i32, i32, i32)> {
    Seq::new(artist_ids.len(), |k: int| (track, artist_ids[k], 0i32))
}

/// The row that places the track `track` on its album, if it has one with
/// a position.
pub open spec fn track_placement(track: i32, album: Option<(i32, Option<i32>)>) -> Seq<
    (i32, i32, i32),
> {
    match album {
        Some((album_id, Some(number))) => seq![(album_id, track, number)],
        _ => Seq::empty(),
    }
}

proof fn committed_rows(db: Tables)
    ensures
        committed(db) == (Tables { depth: committed(db).depth, saved: committed(db).saved, ..db }),
{
}

proof fn track_commit_drive(now: Tables, track: i32, fuel: nat)
    ensures
        ({
            let m = TrackInsertionModel::AwaitCommit { track_id: track };
            let p = ProgressModel::<i32>::Request(RequestModel::Commit);
            let (end, outcome) = track_drive(now, m, p, fuel);
            &&& outcome matches Some(Ok(_)) ==> (end, outcome) == (
                committed(now),
                Some(Ok::<i32, DbError>(track)),
            )
            &&& !(outcome matches Some(Ok(_))) ==> end == now
        }),
{
    let m = TrackInsertionModel::AwaitCommit { track_id: track };
    let p = ProgressModel::<i32>::Request(RequestModel::Commit);
    let done = (TrackInsertionModel::Finished, ProgressModel::<i32>::Finished(Ok(track)));
    assert(track_step(m, DbReply::Executed) == done);
    track_drive_basics(now, m, p, fuel);
    if fuel > 0 {
        let after = committed(now);
        assert(answer(now, RequestModel::Commit) == Some((after, DbReply::Executed)));
        track_drive_request(now, m, RequestModel::Commit, fuel, after, DbReply::Executed);
        track_drive_basics(after, done.0, done.1, (fuel - 1) as nat);
    }
}

proof fn track_finish_drive(now: Tables, plan: TrackPlanModel, track: i32, fuel: nat)
    ensures
        ({
            let (m, p) = track_link_from(plan, track, plan.artist_ids.len() as int);
            let (end, outcome) = track_drive(now, m, p, fuel);
            &&& outcome matches Some(Ok(_)) ==> (end, outcome) == (
                Tables {
                    album_tracks: now.album_tracks + track_placement(track, plan.album),
                    ..committed(now)
                },
                Some(Ok::<i32, DbError>(track)),
            )
            &&& !(outcome matches Some(Ok(_))) ==> end.depth == now.depth && end.saved == now.saved
        }),
{
    let (m, p) = track_link_from(plan, track, plan.artist_ids.len() as int);
    let commit = TrackInsertionModel::AwaitCommit { track_id: track };
    let commit_p = ProgressModel::<i32>::Request(RequestModel::Commit);
    track_drive_basics(now, m, p, fuel);
    committed_rows(now);
    match plan.album {
        Some((album_id, Some(number))) => {
            let r = RequestModel::LinkAlbumTrack { album_id, track_id: track, track_number: number };
            let now2 = Tables {
                album_tracks: now.album_tracks.push((album_id, track, number)),
                ..now
            };
            assert(now.album_tracks.push((album_id, track, number)) =~= now.album_tracks
                + track_placement(track, plan.album));
            assert(p == ProgressModel::<i32>::Request(r));
            if fuel > 0 {
                assert(answer(now, r) == Some((now2, DbReply::Executed)));
                assert(track_step(m, DbReply::Executed) == (commit, commit_p));
                track_drive_request(now, m, r, fuel, now2, DbReply::Executed);
                track_commit_drive(now2, track, (fuel - 1) as nat);
                committed_rows(now2);
            }
        },
        Some((_, None)) => {},
        None => {
            assert(m == commit);
            assert(p == commit_p);
            track_commit_drive(now, track, fuel);
            assert(now.album_tracks + track_placement(track, plan.album) =~= now.album_tracks);
        },
    }
}

proof fn track_link_drive(db: Tables, plan: TrackPlanModel, track: i32, next: int, fuel: nat)
    requires
        0 <= next <= plan.artist_ids.len(),
    ensures
        ({
            let now = Tables {
                track_artists: db.track_artists + track_rows(track, plan.artist_ids.take(next)),
                ..db
            };
            let (m, p) = track_link_from(plan, track, next);
            let (end, outcome) = track_drive(now, m, p, fuel);
            &&& outcome matches Some(Ok(_)) ==> (end, outcome) == (
                Tables {
                    track_artists: db.track_artists + track_rows(track, plan.artist_ids),
                    album_tracks: db.album_tracks + track_placement(track, plan.album),
                    ..committed(db)
                },
                Some(Ok::<i32, DbError>(track)),
            )
            &&& !(outcome matches Some(Ok(_))) ==> end.depth == db.depth && end.saved == db.saved
        }),
    decreases plan.artist_ids.len() - next,
{
    let ids = plan.artist_ids;
    let now = Tables { track_artists: db.track_artists + track_rows(track, ids.take(next)), ..db };
    let (m, p) = track_link_from(plan, track, next);
    if next == ids.len() {
        assert(ids.take(next) =~= ids);
        track_finish_drive(now, plan, track, fuel);
    } else {
        track_drive_basics(now, m, p, fuel);
        if fuel > 0 {
            let r = RequestModel::LinkTrackArtist { track_id: track, artist_id: ids[next], artist_order: 0 };
            let row = (track, ids[next], 0i32);
            let now2 = Tables { track_artists: now.track_artists.push(row), ..now };
            assert(p == ProgressModel::<i32>::Request(r));
            assert(answer(now, r) == Some((now2, DbReply::Executed)));
            assert(track_step(m, DbReply::Executed) == track_link_from(plan, track, next + 1));
            assert(now.track_artists.push(row) =~= db.track_artists + track_rows(
                track,
                ids.take(next + 1),
            ));
            track_drive_request(now, m, r, fuel, now2, DbReply::Executed);
            track_link_drive(db, plan, track, next + 1, (fuel - 1) as nat);
        }
    }
}

/// The rows after the new track `t` was inserted, credited and placed on
/// its album.
pub open spec fn track_inserted(db: Tables, t: NewTrackModel) -> Tables {
    let n = db.next_track as i32;
    Tables {
        tracks: db.tracks.insert(n, (t.title, crate::db::slugify_result(t.title), t.length)),
        next_track: db.next_track + 1,
        track_artists: db.track_artists + track_rows(n, t.artist_ids),
        album_tracks: db.album_tracks + track_placement(n, track_plan(t).album),
        ..db
    }
}

proof fn track_insert_trace(db0: Tables, t: NewTrackModel, fuel: nat)
    requires
        tables_wf(db0),
        t.artist_ids.len() > 0,
        lookup(|j: i32| track_matches(db0, j, t.title, t.artist_ids)) == Some(DbReply::Found(None)),
        track_stored(db0, t, fuel).1 matches Some(Ok(_)),
    ensures
        db0.next_track <= i32::MAX,
        track_stored(db0, t, fuel) == (track_inserted(db0, t), Some(Ok::<i32, DbError>(db0.next_track as i32))),
{
    let plan = track_plan(t);
    let slug = crate::db::slugify_result(t.title);
    let find = RequestModel::FindTrack { title: t.title, artist_ids: t.artist_ids };
    let insert = RequestModel::InsertTrack { title: t.title, slug, length: t.length };
    let m0 = TrackInsertionModel::AwaitFind { plan };
    let m1 = TrackInsertionModel::AwaitBegin { plan };
    let m2 = TrackInsertionModel::AwaitInsert { plan };
    let p0 = ProgressModel::<i32>::Request(find);
    let p1 = ProgressModel::<i32>::Request(RequestModel::Begin);
    let p2 = ProgressModel::<i32>::Request(insert);
    assert(track_start(t) == (m0, p0));
    assert(answer(db0, find) == Some((db0, DbReply::Found(None))));
    assert(track_step(m0, DbReply::Found(None)) == (m1, p1));
    let dbb = begun(db0);
    assert(answer(db0, RequestModel::Begin) == Some((dbb, DbReply::Executed)));
    assert(track_step(m1, DbReply::Executed) == (m2, p2));
    track_drive_basics(db0, m0, p0, fuel);
    track_drive_request(db0, m0, find, fuel, db0, DbReply::Found(None));
    track_drive_basics(db0, m1, p1, (fuel - 1) as nat);
    track_drive_request(db0, m1, RequestModel::Begin, (fuel - 1) as nat, dbb, DbReply::Executed);
    track_drive_basics(dbb, m2, p2, (fuel - 2) as nat);
    assert(db0.next_track <= i32::MAX);
    let n = db0.next_track as i32;
    let dba = Tables {
        tracks: db0.tracks.insert(n, (t.title, slug, t.length)),
        next_track: db0.next_track + 1,
        ..dbb
    };
    assert(answer(dbb, insert) == Some((dba, DbReply::Created(n))));
    assert(track_step(m2, DbReply::Created(n)) == track_link_from(plan, n, 0));
    track_drive_request(dbb, m2, insert, (fuel - 2) as nat, dba, DbReply::Created(n));
    track_link_drive(dba, plan, n, 0, (fuel - 3) as nat);
    assert(committed(dba) == Tables {
        tracks: db0.tracks.insert(n, (t.title, slug, t.length)),
        next_track: db0.next_track + 1,
        ..db0
    });
    assert(dba.track_artists + track_rows(n, t.artist_ids.take(0)) =~= dba.track_artists);
    assert(Tables { track_artists: dba.track_artists + track_rows(n, t.artist_ids.take(0)), ..dba }
        == dba);
}

proof fn track_inserted_lookup(db0: Tables, t: NewTrackModel)
    requires
        tables_wf(db0),
        t.artist_ids.len() > 0,
        t.artist_ids.no_duplicates(),
        db0.next_track <= i32::MAX,
        lookup(|j: i32| track_matches(db0, j, t.title, t.artist_ids)) == Some(DbReply::Found(None)),
    ensures
        ({
            let db1 = track_inserted(db0, t);
            &&& tables_wf(db1)
            &&& lookup(|j: i32| track_matches(db1, j, t.title, t.artist_ids)) == Some(
                DbReply::Found(Some(db0.next_track as i32)),
            )
        }),
{
    let db1 = track_inserted(db0, t);
    let ids = t.artist_ids;
    let n = db0.next_track as i32;
    let p0 = |j: i32| track_matches(db0, j, t.title, ids);
    let p1 = |j: i32| track_matches(db1, j, t.title, ids);
    let base = db0.track_artists.len();
    assert forall|a: i32| #[trigger] track_credits(db1, n).contains(a) <==> ids.to_set().contains(a) by {
        if ids.to_set().contains(a) {
            let i = choose|i: int| 0 <= i < ids.len() && ids[i] == a;
            assert(db1.track_artists[base + i] == (n, a, 0i32));
        }
        if track_credits(db1, n).contains(a) {
            let k = choose|k: int|
                0 <= k < db1.track_artists.len() && #[trigger] db1.track_artists[k] == (
                    n,
                    a,
                    db1.track_artists[k].2,
                );
            if k < base {
                assert(db1.track_artists[k] == db0.track_artists[k]);
                assert(db0.track_artists[k].0 < db0.next_track);
            } else {
                assert(db1.track_artists[k] == (n, ids[k - base], 0i32));
                assert(ids.contains(ids[k - base]));
            }
        }
    }
    assert(track_credits(db1, n) =~= ids.to_set());
    ids.unique_seq_to_set();
    assert(p1(n));
    assert forall|j: i32| #[trigger] p1(j) implies j == n by {
        if j != n {
            assert forall|a: i32| #[trigger] track_credits(db1, j).contains(a) <==> track_credits(
                db0,
                j,
            ).contains(a) by {
                if track_credits(db1, j).contains(a) {
                    let k = choose|k: int|
                        0 <= k < db1.track_artists.len() && #[trigger] db1.track_artists[k] == (
                            j,
                            a,
                            db1.track_artists[k].2,
                        );
                    if k >= base {
                        assert(db1.track_artists[k].0 == n);
                    } else {
                        assert(db0.track_artists[k] == db1.track_artists[k]);
                    }
                }
                if track_credits(db0, j).contains(a) {
                    let k = choose|k: int|
                        0 <= k < db0.track_artists.len() && #[trigger] db0.track_artists[k] == (
                            j,
                            a,
                            db0.track_artists[k].2,
                        );
                    assert(db0.track_artists[k] == db1.track_artists[k]);
                }
            }
            assert(track_credits(db1, j) =~= track_credits(db0, j));
            assert(p0(j));
        }
    }
    lookup_unique(p1, n);
    assert forall|k: int| 0 <= k < db1.track_artists.len() implies #[trigger] db1.track_artists[k].0
        < db1.next_track by {
        if k < base {
            assert(db1.track_artists[k] == db0.track_artists[k]);
        }
    }
}

proof fn track_credits_finite(db: Tables, track: i32)
    ensures
        track_credits(db, track).finite(),
{
    let all = db.track_artists.map_values(|row: (i32, i32, i32)| row.1).to_set();
    assert forall|a: i32| #[trigger] track_credits(db, track).contains(a) implies all.contains(a) by {
        let k = choose|k: int|
            0 <= k < db.track_artists.len() && #[trigger] db.track_artists[k] == (
                track,
                a,
                db.track_artists[k].2,
            );
        let names = db.track_artists.map_values(|row: (i32, i32, i32)| row.1);
        assert(names[k] == a);
    }
    vstd::seq_lib::seq_to_set_is_finite(db.track_artists.map_values(|row: (i32, i32, i32)| row.1));
    vstd::set_lib::lemma_len_subset(track_credits(db, track), all);
}

/// After the track `t` of distinct artists was stored with id `id`, its
/// lookup finds exactly `id`, and storing it again gives `id` and changes
/// nothing, whatever album it names.
pub proof fn track_twice(db0: Tables, t: NewTrackModel, fuel: nat, fuel2: nat)
    requires
        tables_wf(db0),
        t.artist_ids.no_duplicates(),
        track_stored(db0, t, fuel).1 matches Some(Ok(_)),
        fuel2 >= 1,
    ensures
        ({
            let (db1, outcome) = track_stored(db0, t, fuel);
            let id = outcome->0->Ok_0;
            &&& tables_wf(db1)
            &&& answer(db1, RequestModel::FindTrack { title: t.title, artist_ids: t.artist_ids })
                == Some((db1, DbReply::Found(Some(id))))
            &&& track_credits(db1, id) =~= t.artist_ids.to_set()
            &&& track_stored(db1, t, fuel2) == (db1, Some(Ok::<i32, DbError>(id)))
        }),
{
    let (db1, outcome) = track_stored(db0, t, fuel);
    let id = outcome->0->Ok_0;
    let plan = track_plan(t);
    let find = RequestModel::FindTrack { title: t.title, artist_ids: t.artist_ids };
    let m0 = TrackInsertionModel::AwaitFind { plan };
    let p0 = |j: i32| track_matches(db0, j, t.title, t.artist_ids);
    if t.artist_ids.len() == 0 {
        track_drive_basics(
            db0,
            TrackInsertionModel::Finished,
            ProgressModel::Finished(Err(DbError::NoArtists)),
            fuel,
        );
    }
    assert(t.artist_ids.len() > 0);
    assert(track_start(t) == (m0, ProgressModel::<i32>::Request(find)));
    track_drive_basics(db0, m0, ProgressModel::Request(find), fuel);
    match lookup(p0) {
        Some(DbReply::Found(Some(c))) => {
            assert(answer(db0, find) == Some((db0, DbReply::Found(Some(c)))));
            track_drive_request(db0, m0, find, fuel, db0, DbReply::Found(Some(c)));
            track_drive_basics(
                db0,
                TrackInsertionModel::Finished,
                ProgressModel::Finished(Ok(c)),
                (fuel - 1) as nat,
            );
            assert(db1 == db0);
            assert(id == c);
        },
        Some(DbReply::Found(None)) => {
            track_insert_trace(db0, t, fuel);
            track_inserted_lookup(db0, t);
        },
        _ => {
            assert(answer(db0, find) is None);
        },
    }
    let p1 = |j: i32| track_matches(db1, j, t.title, t.artist_ids);
    assert(lookup(p1) == Some(DbReply::Found(Some(id))));
    lookup_found(p1, id);
    t.artist_ids.unique_seq_to_set();
    track_credits_finite(db1, id);
    vstd::set_lib::lemma_subset_equality(t.artist_ids.to_set(), track_credits(db1, id));
    assert(answer(db1, find) == Some((db1, DbReply::Found(Some(id)))));
    track_drive_request(db1, m0, find, fuel2, db1, DbReply::Found(Some(id)));
    track_drive_basics(db1, TrackInsertionModel::Finished, ProgressModel::Finished(Ok(id)), (fuel2 - 1) as nat);
}

/// The artist `id` is the one found for the name `name`.
pub open spec fn artist_known(db: Tables, name: Seq<char>, id: i32) -> bool {
    lookup(|j: i32| artist_matches(db, j, name)) == Some(DbReply::Found(Some(id)))
}

/// The album `id` is the one found for `title` and `artist_ids`.
pub open spec fn album_known(db: Tables, title: Seq<char>, artist_ids: Seq<i32>, id: i32) -> bool {
    lookup(|j: i32| album_matches(db, j, title, artist_ids)) == Some(DbReply::Found(Some(id)))
}

/// The track `id` is the one found for `title` and `artist_ids`.
pub open spec fn track_known(db: Tables, title: Seq<char>, artist_ids: Seq<i32>, id: i32) -> bool {
    lookup(|j: i32| track_matches(db, j, title, artist_ids)) == Some(DbReply::Found(Some(id)))
}

pub(crate) proof fn artist_known_frame(db: Tables, db1: Tables, name: Seq<char>, id: i32)
    requires
        db1.artists == db.artists,
        artist_known(db, name, id),
    ensures
        artist_known(db1, name, id),
{
    assert((|j: i32| artist_matches(db1, j, name)) =~= (|j: i32| artist_matches(db, j, name)));
}

pub(crate) proof fn album_known_frame(
    db: Tables,
    db1: Tables,
    title: Seq<char>,
    artist_ids: Seq<i32>,
    id: i32,
)
    requires
        db1.albums == db.albums,
        db1.album_artists == db.album_artists,
        album_known(db, title, artist_ids, id),
    ensures
        album_known(db1, title, artist_ids, id),
{
    assert((|j: i32| album_matches(db1, j, title, artist_ids)) =~= (|j: i32|
        album_matches(db, j, title, artist_ids)));
}

pub(crate) proof fn track_known_frame(
    db: Tables,
    db1: Tables,
    title: Seq<char>,
    artist_ids: Seq<i32>,
    id: i32,
)
    requires
        db1.tracks == db.tracks,
        db1.track_artists == db.track_artists,
        track_known(db, title, artist_ids, id),
    ensures
        track_known(db1, title, artist_ids, id),
{
    assert forall|j: i32| #[trigger] track_credits(db1, j) == track_credits(db, j) by {
        assert(track_credits(db1, j) =~= track_credits(db, j));
    }
    assert((|j: i32| track_matches(db1, j, title, artist_ids)) =~= (|j: i32|
        track_matches(db, j, title, artist_ids)));
}

/// Storing an artist that succeeds leaves every table but the artists as
/// it was, keeps every artist lookup that already found one, and makes the
/// lookup of the stored name find the outcome.
pub(crate) proof fn artist_stored_keeps(db: Tables, name: Seq<char>, fuel: nat)
    requires
        tables_wf(db),
        artist_stored(db, name, fuel).1 matches Some(Ok(_)),
    ensures
        ({
            let (db1, outcome) = artist_stored(db, name, fuel);
            &&& tables_wf(db1)
            &&& artist_known(db1, name, outcome->0->Ok_0)
            &&& db1 == Tables { artists: db1.artists, next_artist: db1.next_artist, ..db }
            &&& forall|x: Seq<char>, i: i32|
                #[trigger] artist_known(db, x, i) ==> artist_known(db1, x, i)
        }),
{
    let (db1, outcome) = artist_stored(db, name, fuel);
    let id = outcome->0->Ok_0;
    artist_twice(db, name, fuel, 1);
    let p0 = |j: i32| artist_matches(db, j, name);
    let m0 = ArtistInsertionModel::AwaitFind { name };
    let find = RequestModel::FindArtist { name };
    artist_drive_basics(db, m0, ProgressModel::Request(find), fuel);
    match lookup(p0) {
        Some(DbReply::Found(Some(c))) => {
            artist_drive_request(db, m0, find, fuel, db, DbReply::Found(Some(c)));
            artist_drive_basics(
                db,
                ArtistInsertionModel::Finished,
                ProgressModel::Finished(Ok(c)),
                (fuel - 1) as nat,
            );
            assert(db1 == db);
        },
        Some(DbReply::Found(None)) => {
            let slug = crate::db::slugify_result(name);
            let m1 = ArtistInsertionModel::AwaitInsert { name };
            let ins = RequestModel::InsertArtist { name, slug };
            artist_drive_request(db, m0, find, fuel, db, DbReply::Found(None));
            artist_drive_basics(db, m1, ProgressModel::Request(ins), (fuel - 1) as nat);
            assert(db.next_artist <= i32::MAX);
            let n = db.next_artist as i32;
            let dba = Tables {
                artists: db.artists.insert(n, (name, slug)),
                next_artist: db.next_artist + 1,
                ..db
            };
            artist_drive_request(db, m1, ins, (fuel - 1) as nat, dba, DbReply::Created(n));
            artist_drive_basics(
                dba,
                ArtistInsertionModel::Finished,
                ProgressModel::Finished(Ok(n)),
                (fuel - 2) as nat,
            );
            assert(db1 == dba);
            assert forall|x: Seq<char>, i: i32| #[trigger] artist_known(db, x, i) implies artist_known(
                db1,
                x,
                i,
            ) by {
                let q0 = |j: i32| artist_matches(db, j, x);
                let q1 = |j: i32| artist_matches(db1, j, x);
                lookup_found(q0, i);
                if x == name {
                    assert(p0(i));
                }
                assert(q1(i));
                assert forall|j: i32| #[trigger] q1(j) implies j == i by {
                    if j != n {
                        assert(q0(j));
                    }
                }
                lookup_unique(q1, i);
            }
        },
        _ => {
            artist_drive_basics(db, m0, ProgressModel::Request(find), fuel);
        },
    }
}

/// Storing an album that succeeds either changes nothing or inserts and
/// credits it.
pub(crate) proof fn album_stored_cases(db: Tables, title: Seq<char>, artist_ids: Seq<i32>, fuel: nat)
    requires
        tables_wf(db),
        album_stored(db, title, artist_ids, fuel).1 matches Some(Ok(_)),
    ensures
        album_stored(db, title, artist_ids, fuel).0 == db || (db.next_album <= i32::MAX
            && album_stored(db, title, artist_ids, fuel).0 == album_inserted(db, title, artist_ids)),
        ({
            let (db1, outcome) = album_stored(db, title, artist_ids, fuel);
            let id = outcome->0->Ok_0;
            &&& db1.albums.contains_key(id)
            &&& db1.albums[id].0 == title
            &&& forall|i: int|
                0 <= i < artist_ids.len() ==> album_credits(db1, id, #[trigger] artist_ids[i])
        }),
{
    let find = RequestModel::FindAlbum { title, artist_ids };
    let m0 = AlbumInsertionModel::AwaitFind { title, artist_ids };
    if artist_ids.len() == 0 {
        album_drive_basics(
            db,
            AlbumInsertionModel::Finished,
            ProgressModel::Finished(Err(DbError::NoArtists)),
            fuel,
        );
    }
    album_drive_basics(db, m0, ProgressModel::Request(find), fuel);
    match lookup(|j: i32| album_matches(db, j, title, artist_ids)) {
        Some(DbReply::Found(Some(c))) => {
            lookup_found(|j: i32| album_matches(db, j, title, artist_ids), c);
            album_drive_request(db, m0, find, fuel, db, DbReply::Found(Some(c)));
            album_drive_basics(
                db,
                AlbumInsertionModel::Finished,
                ProgressModel::Finished(Ok(c)),
                (fuel - 1) as nat,
            );
        },
        Some(DbReply::Found(None)) => {
            album_insert_trace(db, title, artist_ids, fuel);
            let db1 = album_inserted(db, title, artist_ids);
            let n = db.next_album as i32;
            let base = db.album_artists.len();
            assert forall|i: int| 0 <= i < artist_ids.len() implies album_credits(
                db1,
                n,
                #[trigger] artist_ids[i],
            ) by {
                assert(db1.album_artists[base + i] == (n, artist_ids[i], 0i32));
            }
        },
        _ => {},
    }
}

/// Storing a track that succeeds either changes nothing or inserts,
/// credits and places it.
pub(crate) proof fn track_stored_cases(db: Tables, t: NewTrackModel, fuel: nat)
    requires
        tables_wf(db),
        track_stored(db, t, fuel).1 matches Some(Ok(_)),
    ensures
        track_stored(db, t, fuel).0 == db || (db.next_track <= i32::MAX && track_stored(db, t, fuel).0
            == track_inserted(db, t)),
        ({
            let (db1, outcome) = track_stored(db, t, fuel);
            let id = outcome->0->Ok_0;
            &&& db1.tracks.contains_key(id)
            &&& db1.tracks[id].0 == t.title
            &&& t.artist_ids.to_set().subset_of(track_credits(db1, id))
        }),
{
    let plan = track_plan(t);
    let find = RequestModel::FindTrack { title: t.title, artist_ids: t.artist_ids };
    let m0 = TrackInsertionModel::AwaitFind { plan };
    if t.artist_ids.len() == 0 {
        track_drive_basics(
            db,
            TrackInsertionModel::Finished,
            ProgressModel::Finished(Err(DbError::NoArtists)),
            fuel,
        );
    }
    track_drive_basics(db, m0, ProgressModel::Request(find), fuel);
    match lookup(|j: i32| track_matches(db, j, t.title, t.artist_ids)) {
        Some(DbReply::Found(Some(c))) => {
            lookup_found(|j: i32| track_matches(db, j, t.title, t.artist_ids), c);
            track_drive_request(db, m0, find, fuel, db, DbReply::Found(Some(c)));
            track_drive_basics(
                db,
                TrackInsertionModel::Finished,
                ProgressModel::Finished(Ok(c)),
                (fuel - 1) as nat,
            );
        },
        Some(DbReply::Found(None)) => {
            track_insert_trace(db, t, fuel);
            let db1 = track_inserted(db, t);
            let n = db.next_track as i32;
            let base = db.track_artists.len();
            assert forall|a: i32| #[trigger] t.artist_ids.to_set().contains(a) implies track_credits(
                db1,
                n,
            ).contains(a) by {
                let i = choose|i: int| 0 <= i < t.artist_ids.len() && t.artist_ids[i] == a;
                assert(db1.track_artists[base + i] == (n, a, 0i32));
            }
        },
        _ => {},
    }
}

proof fn album_inserted_wf(db: Tables, title: Seq<char>, artist_ids: Seq<i32>)
    requires
        tables_wf(db),
        db.next_album <= i32::MAX,
    ensures
        tables_wf(album_inserted(db, title, artist_ids)),
{
    let db1 = album_inserted(db, title, artist_ids);
    let base = db.album_artists.len();
    assert forall|k: int| 0 <= k < db1.album_artists.len() implies #[trigger] db1.album_artists[k].0
        < db1.next_album by {
        if k < base {
            assert(db1.album_artists[k] == db.album_artists[k]);
        }
    }
}

proof fn track_inserted_wf(db: Tables, t: NewTrackModel)
    requires
        tables_wf(db),
        db.next_track <= i32::MAX,
    ensures
        tables_wf(track_inserted(db, t)),
{
    let db1 = track_inserted(db, t);
    let base = db.track_artists.len();
    assert forall|k: int| 0 <= k < db1.track_artists.len() implies #[trigger] db1.track_artists[k].0
        < db1.next_track by {
        if k < base {
            assert(db1.track_artists[k] == db.track_artists[k]);
        }
    }
}

/// Storing an album keeps the rows well formed.
pub(crate) proof fn album_stored_wf(db: Tables, title: Seq<char>, artist_ids: Seq<i32>, fuel: nat)
    requires
        tables_wf(db),
        album_stored(db, title, artist_ids, fuel).1 matches Some(Ok(_)),
    ensures
        tables_wf(album_stored(db, title, artist_ids, fuel).0),
{
    album_stored_cases(db, title, artist_ids, fuel);
    if album_stored(db, title, artist_ids, fuel).0 != db {
        album_inserted_wf(db, title, artist_ids);
    }
}

/// Storing a track keeps the rows well formed.
pub(crate) proof fn track_stored_wf(db: Tables, t: NewTrackModel, fuel: nat)
    requires
        tables_wf(db),
        track_stored(db, t, fuel).1 matches Some(Ok(_)),
    ensures
        tables_wf(track_stored(db, t, fuel).0),
{
    track_stored_cases(db, t, fuel);
    if track_stored(db, t, fuel).0 != db {
        track_inserted_wf(db, t);
    }
}

/// A stored album has the title it was stored with and is credited to
/// every artist it was stored with.
pub proof fn album_credits_its_artists(db0: Tables, title: Seq<char>, artist_ids: Seq<i32>, fuel: nat)
    requires
        tables_wf(db0),
        album_stored(db0, title, artist_ids, fuel).1 matches Some(Ok(_)),
    ensures
        ({
            let (db1, outcome) = album_stored(db0, title, artist_ids, fuel);
            let id = outcome->0->Ok_0;
            &&& db1.albums.contains_key(id)
            &&& db1.albums[id].0 == title
            &&& forall|i: int|
                0 <= i < artist_ids.len() ==> album_credits(db1, id, #[trigger] artist_ids[i])
        }),
{
    album_stored_cases(db0, title, artist_ids, fuel);
}

/// A stored track has the title it was stored with and is credited to
/// every artist it was stored with.
pub proof fn track_credits_its_artists(db0: Tables, t: NewTrackModel, fuel: nat)
    requires
        tables_wf(db0),
        track_stored(db0, t, fuel).1 matches Some(Ok(_)),
    ensures
        ({
            let (db1, outcome) = track_stored(db0, t, fuel);
            let id = outcome->0->Ok_0;
            &&& db1.tracks.contains_key(id)
            &&& db1.tracks[id].0 == t.title
            &&& t.artist_ids.to_set().subset_of(track_credits(db1, id))
        }),
{
    track_stored_cases(db0, t, fuel);
}

/// An artist insertion that stops short of success changes nothing.
pub(crate) proof fn artist_stored_fails(db: Tables, name: Seq<char>, fuel: nat)
    requires
        !(artist_stored(db, name, fuel).1 matches Some(Ok(_))),
    ensures
        artist_stored(db, name, fuel).0 == db,
{
    let m0 = ArtistInsertionModel::AwaitFind { name };
    let find = RequestModel::FindArtist { name };
    artist_drive_basics(db, m0, ProgressModel::Request(find), fuel);
    if fuel > 0 {
        match lookup(|j: i32| artist_matches(db, j, name)) {
            Some(DbReply::Found(Some(c))) => {
                artist_drive_request(db, m0, find, fuel, db, DbReply::Found(Some(c)));
                artist_drive_basics(
                    db,
                    ArtistInsertionModel::Finished,
                    ProgressModel::Finished(Ok(c)),
                    (fuel - 1) as nat,
                );
            },
            Some(DbReply::Found(None)) => {
                let slug = crate::db::slugify_result(name);
                let m1 = ArtistInsertionModel::AwaitInsert { name };
                let ins = RequestModel::InsertArtist { name, slug };
                artist_drive_request(db, m0, find, fuel, db, DbReply::Found(None));
                artist_drive_basics(db, m1, ProgressModel::Request(ins), (fuel - 1) as nat);
                if fuel > 1 && db.next_artist <= i32::MAX {
                    let n = db.next_artist as i32;
                    let dba = Tables {
                        artists: db.artists.insert(n, (name, slug)),
                        next_artist: db.next_artist + 1,
                        ..db
                    };
                    artist_drive_request(db, m1, ins, (fuel - 1) as nat, dba, DbReply::Created(n));
                    artist_drive_basics(
                        dba,
                        ArtistInsertionModel::Finished,
                        ProgressModel::Finished(Ok(n)),
                        (fuel - 2) as nat,
                    );
                }
            },
            _ => {},
        }
    }
}

/// An album insertion that stops short of success has either changed
/// nothing or stopped inside the transaction it began.
pub(crate) proof fn album_stored_fails(db: Tables, title: Seq<char>, artist_ids: Seq<i32>, fuel: nat)
    requires
        !(album_stored(db, title, artist_ids, fuel).1 matches Some(Ok(_))),
    ensures
        ({
            let end = album_stored(db, title, artist_ids, fuel).0;
            end == db || (end.depth == db.depth + 1 && end.saved == begun(db).saved)
        }),
{
    let slug = crate::db::slugify_result(title);
    let find = RequestModel::FindAlbum { title, artist_ids };
    let insert = RequestModel::InsertAlbum { title, slug };
    let m0 = AlbumInsertionModel::AwaitFind { title, artist_ids };
    let m1 = AlbumInsertionModel::AwaitBegin { title, artist_ids };
    let m2 = AlbumInsertionModel::AwaitInsert { title, artist_ids };
    let p1 = ProgressModel::<i32>::Request(RequestModel::Begin);
    let p2 = ProgressModel::<i32>::Request(insert);
    if artist_ids.len() == 0 {
        album_drive_basics(
            db,
            AlbumInsertionModel::Finished,
            ProgressModel::Finished(Err(DbError::NoArtists)),
            fuel,
        );
    } else {
        album_drive_basics(db, m0, ProgressModel::Request(find), fuel);
        if fuel > 0 {
            match lookup(|j: i32| album_matches(db, j, title, artist_ids)) {
                Some(DbReply::Found(Some(c))) => {
                    album_drive_request(db, m0, find, fuel, db, DbReply::Found(Some(c)));
                    album_drive_basics(
                        db,
                        AlbumInsertionModel::Finished,
                        ProgressModel::Finished(Ok(c)),
                        (fuel - 1) as nat,
                    );
                },
                Some(DbReply::Found(None)) => {
                    assert(album_step(m0, DbReply::Found(None)) == (m1, p1));
                    album_drive_request(db, m0, find, fuel, db, DbReply::Found(None));
                    album_drive_basics(db, m1, p1, (fuel - 1) as nat);
                    if fuel > 1 {
                        let dbb = begun(db);
                        assert(album_step(m1, DbReply::Executed) == (m2, p2));
                        album_drive_request(db, m1, RequestModel::Begin, (fuel - 1) as nat, dbb, DbReply::Executed);
                        album_drive_basics(dbb, m2, p2, (fuel - 2) as nat);
                        if fuel > 2 && db.next_album <= i32::MAX {
                            let n = db.next_album as i32;
                            let dba = Tables {
                                albums: db.albums.insert(n, (title, slug)),
                                next_album: db.next_album + 1,
                                ..dbb
                            };
                            assert(answer(dbb, insert) == Some((dba, DbReply::Created(n))));
                            assert(album_step(m2, DbReply::Created(n)) == album_link_from(n, artist_ids, 0));
                            album_drive_request(dbb, m2, insert, (fuel - 2) as nat, dba, DbReply::Created(n));
                            album_link_drive(dba, n, artist_ids, 0, (fuel - 3) as nat);
                            assert(dba.album_artists + album_rows(n, artist_ids.take(0)) =~= dba.album_artists);
                            assert(Tables {
                                album_artists: dba.album_artists + album_rows(n, artist_ids.take(0)),
                                ..dba
                            } == dba);
                        }
                    }
                },
                _ => {},
            }
        }
    }
}

proof fn track_insert_fails(dbb: Tables, t: NewTrackModel, fuel: nat)
    ensures
        ({
            let plan = track_plan(t);
            let insert = RequestModel::InsertTrack {
                title: t.title,
                slug: crate::db::slugify_result(t.title),
                length: t.length,
            };
            let (end, outcome) = track_drive(
                dbb,
                TrackInsertionModel::AwaitInsert { plan },
                ProgressModel::Request(insert),
                fuel,
            );
            !(outcome matches Some(Ok(_))) ==> end.depth == dbb.depth && end.saved == dbb.saved
        }),
{
    let plan = track_plan(t);
    let slug = crate::db::slugify_result(t.title);
    let insert = RequestModel::InsertTrack { title: t.title, slug, length: t.length };
    let m2 = TrackInsertionModel::AwaitInsert { plan };
    let p2 = ProgressModel::<i32>::Request(insert);
    track_drive_basics(dbb, m2, p2, fuel);
    if fuel > 0 && dbb.next_track <= i32::MAX {
        let n = dbb.next_track as i32;
        let dba = Tables {
            tracks: dbb.tracks.insert(n, (t.title, slug, t.length)),
            next_track: dbb.next_track + 1,
            ..dbb
        };
        assert(answer(dbb, insert) == Some((dba, DbReply::Created(n))));
        assert(track_step(m2, DbReply::Created(n)) == track_link_from(plan, n, 0));
        track_drive_request(dbb, m2, insert, fuel, dba, DbReply::Created(n));
        track_link_drive(dba, plan, n, 0, (fuel - 1) as nat);
        assert(dba.track_artists + track_rows(n, t.artist_ids.take(0)) =~= dba.track_artists);
        assert(Tables {
            track_artists: dba.track_artists + track_rows(n, t.artist_ids.take(0)),
            ..dba
        } == dba);
    }
}

/// A track insertion that stops short of success has either changed
/// nothing or stopped inside the transaction it began.
pub(crate) proof fn track_stored_fails(db: Tables, t: NewTrackModel, fuel: nat)
    requires
        !(track_stored(db, t, fuel).1 matches Some(Ok(_))),
    ensures
        ({
            let end = track_stored(db, t, fuel).0;
            end == db || (end.depth == db.depth + 1 && end.saved == begun(db).saved)
        }),
{
    let plan = track_plan(t);
    let slug = crate::db::slugify_result(t.title);
    let find = RequestModel::FindTrack { title: t.title, artist_ids: t.artist_ids };
    let insert = RequestModel::InsertTrack { title: t.title, slug, length: t.length };
    let m0 = TrackInsertionModel::AwaitFind { plan };
    let m1 = TrackInsertionModel::AwaitBegin { plan };
    let m2 = TrackInsertionModel::AwaitInsert { plan };
    let p1 = ProgressModel::<i32>::Request(RequestModel::Begin);
    let p2 = ProgressModel::<i32>::Request(insert);
    if t.artist_ids.len() == 0 {
        track_drive_basics(
            db,
            TrackInsertionModel::Finished,
            ProgressModel::Finished(Err(DbError::NoArtists)),
            fuel,
        );
    } else {
        track_drive_basics(db, m0, ProgressModel::Request(find), fuel);
        if fuel > 0 {
            match lookup(|j: i32| track_matches(db, j, t.title, t.artist_ids)) {
                Some(DbReply::Found(Some(c))) => {
                    track_drive_request(db, m0, find, fuel, db, DbReply::Found(Some(c)));
                    track_drive_basics(
                        db,
                        TrackInsertionModel::Finished,
                        ProgressModel::Finished(Ok(c)),
                        (fuel - 1) as nat,
                    );
                },
                Some(DbReply::Found(None)) => {
                    assert(track_step(m0, DbReply::Found(None)) == (m1, p1));
                    track_drive_request(db, m0, find, fuel, db, DbReply::Found(None));
                    track_drive_basics(db, m1, p1, (fuel - 1) as nat);
                    if fuel > 1 {
                        let dbb = begun(db);
                        assert(track_step(m1, DbReply::Executed) == (m2, p2));
                        track_drive_request(db, m1, RequestModel::Begin, (fuel - 1) as nat, dbb, DbReply::Executed);
                        track_insert_fails(dbb, t, (fuel - 2) as nat);
                    }
                },
                _ => {},
            }
        }
    }
}

/// Abandoning inside the transaction that began on `db0` brings back its
/// rows.
pub(crate) proof fn abandoned_inside(db0: Tables, end: Tables)
    requires
        tables_wf(db0),
        idle(db0),
        end == db0 || end.saved == begun(db0).saved,
    ensures
        same_rows(abandoned(end), db0),
{
}

/// Storing an artist that does not succeed writes no row.
pub proof fn artist_failure_writes_nothing(db0: Tables, name: Seq<char>, fuel: nat)
    requires
        tables_wf(db0),
        idle(db0),
        !(artist_stored(db0, name, fuel).1 matches Some(Ok(_))),
    ensures
        artist_stored(db0, name, fuel).0 == db0,
        same_rows(abandoned(artist_stored(db0, name, fuel).0), db0),
{
    artist_stored_fails(db0, name, fuel);
}

/// Storing an album outside any transaction that does not succeed, for any
/// reason and wherever it stops, leaves every row as it was once it is
/// abandoned: what it wrote is inside the transaction it began.
pub proof fn album_failure_writes_nothing(db0: Tables, title: Seq<char>, artist_ids: Seq<i32>, fuel: nat)
    requires
        tables_wf(db0),
        idle(db0),
        !(album_stored(db0, title, artist_ids, fuel).1 matches Some(Ok(_))),
    ensures
        same_rows(abandoned(album_stored(db0, title, artist_ids, fuel).0), db0),
{
    album_stored_fails(db0, title, artist_ids, fuel);
    abandoned_inside(db0, album_stored(db0, title, artist_ids, fuel).0);
}

/// Storing a track outside any transaction that does not succeed, for any
/// reason and wherever it stops, leaves every row as it was once it is
/// abandoned: what it wrote is inside the transaction it began.
pub proof fn track_failure_writes_nothing(db0: Tables, t: NewTrackModel, fuel: nat)
    requires
        tables_wf(db0),
        idle(db0),
        !(track_stored(db0, t, fuel).1 matches Some(Ok(_))),
    ensures
        same_rows(abandoned(track_stored(db0, t, fuel).0), db0),
{
    track_stored_fails(db0, t, fuel);
    abandoned_inside(db0, track_stored(db0, t, fuel).0);
}

} // verus!
