//! What storing a scrobble does to the rows of the database, and what
//! storing the same scrobble a second time does.

use vstd::prelude::*;

use crate::db::album::{album_start, album_step, AlbumInsertionModel};
use crate::db::artist::{artist_start, artist_step, ArtistInsertionModel};
use crate::db::scrobble::{
    scrobble_album_artists_from, scrobble_enter_album, scrobble_enter_track, scrobble_fail,
    scrobble_start, scrobble_step, scrobble_track, scrobble_track_artists_from, NewScrobbleModel,
    ScrobbleInsertionModel,
};
use crate::db::tables::{
    album_drive, album_drive_basics, album_drive_request, album_known, album_known_frame,
    album_stored, album_stored_cases, album_stored_wf, album_twice, answer, artist_drive, artist_drive_basics,
    artist_drive_request, artist_known, artist_known_frame, artist_matches, artist_stored,
    artist_stored_keeps, abandoned, abandoned_inside, album_stored_fails, artist_stored_fails,
    begun, committed, idle, same_rows, track_stored_fails, lookup_found, tables_wf, track_drive, track_drive_basics,
    track_drive_request, track_known, track_known_frame, track_stored, track_stored_cases,
    track_stored_wf, track_twice, Tables,
};
use crate::db::track::{track_start, track_step, TrackInsertionModel};
use crate::db::{DbError, DbReply, ProgressModel, RequestModel};

verus! {

/// Runs a scrobble insertion from state `m`, which last issued `p`, against
/// `db`, for at most `fuel` requests: the rows at the end and the outcome
/// (`None` when the database failed or the requests ran out).
#[verifier::opaque]
pub open spec fn scrobble_drive(
    db: Tables,
    m: ScrobbleInsertionModel,
    p: ProgressModel<()>,
    fuel: nat,
) -> (Tables, Option<Result<(), DbError>>)
    decreases fuel,
{
    match p {
        ProgressModel::Finished(outcome) => (db, Some(outcome)),
        ProgressModel::Request(r) => if fuel == 0 {
            (db, None)
        } else {
            match answer(db, r) {
                None => (db, None),
                Some((db2, reply)) => {
                    let (m2, p2) = scrobble_step(m, reply);
                    scrobble_drive(db2, m2, p2, (fuel - 1) as nat)
                },
            }
        },
    }
}

/// Storing the scrobble `s` against `db`.
pub open spec fn scrobble_stored(db: Tables, s: NewScrobbleModel, fuel: nat) -> (
    Tables,
    Option<Result<(), DbError>>,
) {
    let (m, r) = scrobble_start(s);
    scrobble_drive(db, m, ProgressModel::Request(r), fuel)
}

proof fn scrobble_drive_request(
    db: Tables,
    m: ScrobbleInsertionModel,
    r: RequestModel,
    fuel: nat,
    db2: Tables,
    reply: DbReply,
)
    requires
        fuel > 0,
        answer(db, r) == Some((db2, reply)),
    ensures
        scrobble_drive(db, m, ProgressModel::Request(r), fuel) == scrobble_drive(
            db2,
            scrobble_step(m, reply).0,
            scrobble_step(m, reply).1,
            (fuel - 1) as nat,
        ),
{
    reveal_with_fuel(scrobble_drive, 1);
}

proof fn scrobble_drive_basics(
    db: Tables,
    m: ScrobbleInsertionModel,
    p: ProgressModel<()>,
    fuel: nat,
)
    ensures
        p matches ProgressModel::Finished(o) ==> scrobble_drive(db, m, p, fuel) == (db, Some(o)),
        (p is Request && fuel == 0) ==> scrobble_drive(db, m, p, fuel) == (
            db,
            None::<Result<(), DbError>>,
        ),
        (p matches ProgressModel::Request(r) && answer(db, r) is None) ==> scrobble_drive(
            db,
            m,
            p,
            fuel,
        ) == (db, None::<Result<(), DbError>>),
{
    reveal_with_fuel(scrobble_drive, 1);
}

/// The requests left when an artist insertion run as by [`artist_drive`]
/// finishes.
#[verifier::opaque]
pub open spec fn artist_rest(
    db: Tables,
    m: ArtistInsertionModel,
    p: ProgressModel<i32>,
    fuel: nat,
) -> nat
    decreases fuel,
{
    match p {
        ProgressModel::Finished(_) => fuel,
        ProgressModel::Request(r) => if fuel == 0 {
            0
        } else {
            match answer(db, r) {
                None => 0,
                Some((db2, reply)) => {
                    let (m2, p2) = artist_step(m, reply);
                    artist_rest(db2, m2, p2, (fuel - 1) as nat)
                },
            }
        },
    }
}

/// The requests left when an album insertion run as by [`album_drive`]
/// finishes.
#[verifier::opaque]
pub open spec fn album_rest(
    db: Tables,
    m: AlbumInsertionModel,
    p: ProgressModel<i32>,
    fuel: nat,
) -> nat
    decreases fuel,
{
    match p {
        ProgressModel::Finished(_) => fuel,
        ProgressModel::Request(r) => if fuel == 0 {
            0
        } else {
            match answer(db, r) {
                None => 0,
                Some((db2, reply)) => {
                    let (m2, p2) = album_step(m, reply);
                    album_rest(db2, m2, p2, (fuel - 1) as nat)
                },
            }
        },
    }
}

/// The requests left when a track insertion run as by [`track_drive`]
/// finishes.
#[verifier::opaque]
pub open spec fn track_rest(
    db: Tables,
    m: TrackInsertionModel,
    p: ProgressModel<i32>,
    fuel: nat,
) -> nat
    decreases fuel,
{
    match p {
        ProgressModel::Finished(_) => fuel,
        ProgressModel::Request(r) => if fuel == 0 {
            0
        } else {
            match answer(db, r) {
                None => 0,
                Some((db2, reply)) => {
                    let (m2, p2) = track_step(m, reply);
                    track_rest(db2, m2, p2, (fuel - 1) as nat)
                },
            }
        },
    }
}

/// The scrobble state while the track artist `m` is stored.
pub open spec fn in_track_artists(
    s: NewScrobbleModel,
    ids: Seq<i32>,
    m: ArtistInsertionModel,
) -> ScrobbleInsertionModel {
    ScrobbleInsertionModel::TrackArtists { scrobble: s, ids, artist: m }
}

proof fn track_artist_phase(
    db: Tables,
    s: NewScrobbleModel,
    ids: Seq<i32>,
    m: ArtistInsertionModel,
    r: RequestModel,
    fuel: nat,
)
    ensures
        ({
            let p = ProgressModel::<i32>::Request(r);
            let (db2, o) = artist_drive(db, m, p, fuel);
            let sd = scrobble_drive(db, in_track_artists(s, ids, m), ProgressModel::Request(r), fuel);
            &&& o matches Some(Ok(id)) ==> sd == scrobble_drive(
                db2,
                scrobble_track_artists_from(s, ids.push(id)).0,
                scrobble_track_artists_from(s, ids.push(id)).1,
                artist_rest(db, m, p, fuel),
            )
            &&& !(o matches Some(Ok(_))) ==> !(sd.1 matches Some(Ok(_))) && sd.0 == db2
        }),
    decreases fuel,
{
    let p = ProgressModel::<i32>::Request(r);
    let sm = in_track_artists(s, ids, m);
    let sp = ProgressModel::<()>::Request(r);
    reveal_with_fuel(artist_rest, 2);
    artist_drive_basics(db, m, p, fuel);
    scrobble_drive_basics(db, sm, sp, fuel);
    if fuel > 0 {
        if let Some((db2, reply)) = answer(db, r) {
            artist_drive_request(db, m, r, fuel, db2, reply);
            scrobble_drive_request(db, sm, r, fuel, db2, reply);
            let (m2, p2) = artist_step(m, reply);
            let f = (fuel - 1) as nat;
            match p2 {
                ProgressModel::Request(r2) => {
                    assert(scrobble_step(sm, reply) == (
                        in_track_artists(s, ids, m2),
                        ProgressModel::<()>::Request(r2),
                    ));
                    track_artist_phase(db2, s, ids, m2, r2, f);
                    assert(artist_rest(db, m, p, fuel) == artist_rest(db2, m2, p2, f));
                },
                ProgressModel::Finished(Ok(id)) => {
                    artist_drive_basics(db2, m2, p2, f);
                    assert(scrobble_step(sm, reply) == scrobble_track_artists_from(s, ids.push(id)));
                    assert(artist_rest(db, m, p, fuel) == f);
                },
                ProgressModel::Finished(Err(e)) => {
                    artist_drive_basics(db2, m2, p2, f);
                    scrobble_drive_basics(db2, scrobble_fail(e).0, scrobble_fail(e).1, f);
                },
            }
        }
    }
}

/// The scrobble state while the album artist `m` is stored.
pub open spec fn in_album_artists(
    track_title: Seq<char>,
    track_ids: Seq<i32>,
    album_title: Seq<char>,
    album_artists: Seq<Seq<char>>,
    ids: Seq<i32>,
    m: ArtistInsertionModel,
) -> ScrobbleInsertionModel {
    ScrobbleInsertionModel::AlbumArtists {
        track_title,
        track_ids,
        album_title,
        album_artists,
        ids,
        artist: m,
    }
}

proof fn album_artist_phase(
    db: Tables,
    track_title: Seq<char>,
    track_ids: Seq<i32>,
    album_title: Seq<char>,
    album_artists: Seq<Seq<char>>,
    ids: Seq<i32>,
    m: ArtistInsertionModel,
    r: RequestModel,
    fuel: nat,
)
    ensures
        ({
            let p = ProgressModel::<i32>::Request(r);
            let (db2, o) = artist_drive(db, m, p, fuel);
            let sd = scrobble_drive(
                db,
                in_album_artists(track_title, track_ids, album_title, album_artists, ids, m),
                ProgressModel::Request(r),
                fuel,
            );
            &&& o matches Some(Ok(id)) ==> sd == scrobble_drive(
                db2,
                scrobble_album_artists_from(track_title, track_ids, album_title, album_artists, ids.push(id)).0,
                scrobble_album_artists_from(track_title, track_ids, album_title, album_artists, ids.push(id)).1,
                artist_rest(db, m, p, fuel),
            )
            &&& !(o matches Some(Ok(_))) ==> !(sd.1 matches Some(Ok(_))) && sd.0 == db2
        }),
    decreases fuel,
{
    let p = ProgressModel::<i32>::Request(r);
    let sm = in_album_artists(track_title, track_ids, album_title, album_artists, ids, m);
    let sp = ProgressModel::<()>::Request(r);
    reveal_with_fuel(artist_rest, 2);
    artist_drive_basics(db, m, p, fuel);
    scrobble_drive_basics(db, sm, sp, fuel);
    if fuel > 0 {
        if let Some((db2, reply)) = answer(db, r) {
            artist_drive_request(db, m, r, fuel, db2, reply);
            scrobble_drive_request(db, sm, r, fuel, db2, reply);
            let (m2, p2) = artist_step(m, reply);
            let f = (fuel - 1) as nat;
            match p2 {
                ProgressModel::Request(r2) => {
                    assert(scrobble_step(sm, reply) == (
                        in_album_artists(track_title, track_ids, album_title, album_artists, ids, m2),
                        ProgressModel::<()>::Request(r2),
                    ));
                    album_artist_phase(db2, track_title, track_ids, album_title, album_artists, ids, m2, r2, f);
                    assert(artist_rest(db, m, p, fuel) == artist_rest(db2, m2, p2, f));
                },
                ProgressModel::Finished(Ok(id)) => {
                    artist_drive_basics(db2, m2, p2, f);
                    assert(scrobble_step(sm, reply) == scrobble_album_artists_from(
                        track_title,
                        track_ids,
                        album_title,
                        album_artists,
                        ids.push(id),
                    ));
                    assert(artist_rest(db, m, p, fuel) == f);
                },
                ProgressModel::Finished(Err(e)) => {
                    artist_drive_basics(db2, m2, p2, f);
                    scrobble_drive_basics(db2, scrobble_fail(e).0, scrobble_fail(e).1, f);
                },
            }
        }
    }
}

/// The scrobble state while the album `m` is stored.
pub open spec fn in_album(
    track_title: Seq<char>,
    track_ids: Seq<i32>,
    m: AlbumInsertionModel,
) -> ScrobbleInsertionModel {
    ScrobbleInsertionModel::Album { track_title, track_ids, album: m }
}

proof fn album_phase(
    db: Tables,
    track_title: Seq<char>,
    track_ids: Seq<i32>,
    m: AlbumInsertionModel,
    r: RequestModel,
    fuel: nat,
)
    ensures
        ({
            let p = ProgressModel::<i32>::Request(r);
            let (db2, o) = album_drive(db, m, p, fuel);
            let sd = scrobble_drive(db, in_album(track_title, track_ids, m), ProgressModel::Request(r), fuel);
            &&& o matches Some(Ok(id)) ==> sd == scrobble_drive(
                db2,
                scrobble_enter_track(track_title, track_ids, Some(id)).0,
                scrobble_enter_track(track_title, track_ids, Some(id)).1,
                album_rest(db, m, p, fuel),
            )
            &&& !(o matches Some(Ok(_))) ==> !(sd.1 matches Some(Ok(_))) && sd.0 == db2
        }),
    decreases fuel,
{
    let p = ProgressModel::<i32>::Request(r);
    let sm = in_album(track_title, track_ids, m);
    let sp = ProgressModel::<()>::Request(r);
    reveal_with_fuel(album_rest, 2);
    album_drive_basics(db, m, p, fuel);
    scrobble_drive_basics(db, sm, sp, fuel);
    if fuel > 0 {
        if let Some((db2, reply)) = answer(db, r) {
            album_drive_request(db, m, r, fuel, db2, reply);
            scrobble_drive_request(db, sm, r, fuel, db2, reply);
            let (m2, p2) = album_step(m, reply);
            let f = (fuel - 1) as nat;
            match p2 {
                ProgressModel::Request(r2) => {
                    assert(scrobble_step(sm, reply) == (
                        in_album(track_title, track_ids, m2),
                        ProgressModel::<()>::Request(r2),
                    ));
                    album_phase(db2, track_title, track_ids, m2, r2, f);
                    assert(album_rest(db, m, p, fuel) == album_rest(db2, m2, p2, f));
                },
                ProgressModel::Finished(Ok(id)) => {
                    album_drive_basics(db2, m2, p2, f);
                    assert(scrobble_step(sm, reply) == scrobble_enter_track(track_title, track_ids, Some(id)));
                    assert(album_rest(db, m, p, fuel) == f);
                },
                ProgressModel::Finished(Err(e)) => {
                    album_drive_basics(db2, m2, p2, f);
                    scrobble_drive_basics(db2, scrobble_fail(e).0, scrobble_fail(e).1, f);
                },
            }
        }
    }
}

/// The scrobble state while the track `m` is stored.
pub open spec fn in_track(album_id: Option<i32>, m: TrackInsertionModel) -> ScrobbleInsertionModel {
    ScrobbleInsertionModel::Track { album_id, track: m }
}

/// The listen of `track_id` on `album_id` is recorded.
pub open spec fn listen_request(track_id: i32, album_id: Option<i32>) -> (
    ScrobbleInsertionModel,
    ProgressModel<()>,
) {
    (
        ScrobbleInsertionModel::AwaitScrobble,
        ProgressModel::Request(RequestModel::InsertScrobble { track_id, album_id }),
    )
}

proof fn track_phase(
    db: Tables,
    album_id: Option<i32>,
    m: TrackInsertionModel,
    r: RequestModel,
    fuel: nat,
)
    ensures
        ({
            let p = ProgressModel::<i32>::Request(r);
            let (db2, o) = track_drive(db, m, p, fuel);
            let sd = scrobble_drive(db, in_track(album_id, m), ProgressModel::Request(r), fuel);
            &&& o matches Some(Ok(id)) ==> sd == scrobble_drive(
                db2,
                listen_request(id, album_id).0,
                listen_request(id, album_id).1,
                track_rest(db, m, p, fuel),
            )
            &&& !(o matches Some(Ok(_))) ==> !(sd.1 matches Some(Ok(_))) && sd.0 == db2
        }),
    decreases fuel,
{
    let p = ProgressModel::<i32>::Request(r);
    let sm = in_track(album_id, m);
    let sp = ProgressModel::<()>::Request(r);
    reveal_with_fuel(track_rest, 2);
    track_drive_basics(db, m, p, fuel);
    scrobble_drive_basics(db, sm, sp, fuel);
    if fuel > 0 {
        if let Some((db2, reply)) = answer(db, r) {
            track_drive_request(db, m, r, fuel, db2, reply);
            scrobble_drive_request(db, sm, r, fuel, db2, reply);
            let (m2, p2) = track_step(m, reply);
            let f = (fuel - 1) as nat;
            match p2 {
                ProgressModel::Request(r2) => {
                    assert(scrobble_step(sm, reply) == (in_track(album_id, m2), ProgressModel::<()>::Request(r2)));
                    track_phase(db2, album_id, m2, r2, f);
                    assert(track_rest(db, m, p, fuel) == track_rest(db2, m2, p2, f));
                },
                ProgressModel::Finished(Ok(id)) => {
                    track_drive_basics(db2, m2, p2, f);
                    assert(scrobble_step(sm, reply) == listen_request(id, album_id));
                    assert(track_rest(db, m, p, fuel) == f);
                },
                ProgressModel::Finished(Err(e)) => {
                    track_drive_basics(db2, m2, p2, f);
                    scrobble_drive_basics(db2, scrobble_fail(e).0, scrobble_fail(e).1, f);
                },
            }
        }
    }
}


/// `a` holds the rows of `b`, whatever transactions are open on it.
pub open spec fn rows_match(a: Tables, b: Tables) -> bool {
    a == (Tables { depth: a.depth, saved: a.saved, ..b })
}

/// The rows with one more listen, `listen`.
pub open spec fn with_listen(db: Tables, listen: (i32, Option<i32>)) -> Tables {
    Tables { scrobbles: db.scrobbles.push(listen), ..db }
}

proof fn listen_phase(db: Tables, track_id: i32, album_id: Option<i32>, fuel: nat)
    ensures
        ({
            let (m, p) = listen_request(track_id, album_id);
            let sd = scrobble_drive(db, m, p, fuel);
            &&& fuel >= 2 ==> sd == (
                committed(with_listen(db, (track_id, album_id))),
                Some(Ok::<(), DbError>(())),
            )
            &&& fuel < 2 ==> sd.1 is None && sd.0.depth == db.depth && sd.0.saved == db.saved
        }),
{
    let (m, p) = listen_request(track_id, album_id);
    let r = RequestModel::InsertScrobble { track_id, album_id };
    let db2 = with_listen(db, (track_id, album_id));
    let commit_m = ScrobbleInsertionModel::AwaitCommit;
    let commit_p = ProgressModel::<()>::Request(RequestModel::Commit);
    scrobble_drive_basics(db, m, p, fuel);
    if fuel > 0 {
        assert(answer(db, r) == Some((db2, DbReply::Executed)));
        assert(scrobble_step(m, DbReply::Executed) == (commit_m, commit_p));
        scrobble_drive_request(db, m, r, fuel, db2, DbReply::Executed);
        scrobble_drive_basics(db2, commit_m, commit_p, (fuel - 1) as nat);
        if fuel > 1 {
            let db3 = committed(db2);
            assert(answer(db2, RequestModel::Commit) == Some((db3, DbReply::Executed)));
            scrobble_drive_request(
                db2,
                commit_m,
                RequestModel::Commit,
                (fuel - 1) as nat,
                db3,
                DbReply::Executed,
            );
            scrobble_drive_basics(
                db3,
                ScrobbleInsertionModel::Finished,
                ProgressModel::Finished(Ok(())),
                (fuel - 2) as nat,
            );
        }
    }
}

proof fn track_found_once(
    db: Tables,
    title: Seq<char>,
    ids: Seq<i32>,
    album_id: Option<i32>,
    id: i32,
    fuel: nat,
)
    requires
        ids.len() > 0,
        fuel >= 1,
        track_known(db, title, ids, id),
    ensures
        ({
            let (m, p) = track_start(scrobble_track(title, ids, album_id));
            &&& track_drive(db, m, p, fuel) == (db, Some(Ok::<i32, DbError>(id)))
            &&& track_rest(db, m, p, fuel) == fuel - 1
        }),
{
    let (m, p) = track_start(scrobble_track(title, ids, album_id));
    let find = RequestModel::FindTrack { title, artist_ids: ids };
    assert(p == ProgressModel::<i32>::Request(find));
    assert(answer(db, find) == Some((db, DbReply::Found(Some(id)))));
    track_drive_request(db, m, find, fuel, db, DbReply::Found(Some(id)));
    track_drive_basics(db, TrackInsertionModel::Finished, ProgressModel::Finished(Ok(id)), (fuel - 1) as nat);
    reveal_with_fuel(track_rest, 2);
}

/// The track `id` exists and has the title `title`.
pub open spec fn track_titled(db: Tables, id: i32, title: Seq<char>) -> bool {
    db.tracks.contains_key(id) && db.tracks[id].0 == title
}

/// The album `id` exists and has the title `title`.
pub open spec fn album_titled(db: Tables, id: i32, title: Seq<char>) -> bool {
    db.albums.contains_key(id) && db.albums[id].0 == title
}

/// Storing the track of a scrobble and then its listen: when it succeeds
/// against `db` with rows `db1`, only the tracks and one listen of a track
/// with that title were written; with distinct artist ids, that track is
/// the one found for them, and running the same from `db1` again adds that
/// listen once more and nothing else.
proof fn track_stage(db: Tables, title: Seq<char>, ids: Seq<i32>, album_id: Option<i32>, fuel: nat)
    requires
        tables_wf(db),
        ({
            let (m, p) = scrobble_enter_track(title, ids, album_id);
            scrobble_drive(db, m, p, fuel).1 == Some(Ok::<(), DbError>(()))
        }),
    ensures
        ({
            let (m, p) = scrobble_enter_track(title, ids, album_id);
            let db1 = scrobble_drive(db, m, p, fuel).0;
            &&& tables_wf(db1)
            &&& db1.depth == committed(db).depth
            &&& db1.saved == committed(db).saved
            &&& db1.artists == db.artists
            &&& db1.next_artist == db.next_artist
            &&& db1.albums == db.albums
            &&& db1.album_artists == db.album_artists
            &&& db1.scrobbles.len() > 0
            &&& db1.scrobbles == db.scrobbles.push(db1.scrobbles.last())
            &&& db1.scrobbles.last().1 == album_id
            &&& track_titled(db1, db1.scrobbles.last().0, title)
            &&& ids.no_duplicates() ==> {
                &&& track_known(db1, title, ids, db1.scrobbles.last().0)
                &&& forall|dbx: Tables, fuel2: nat|
                    rows_match(dbx, db1) && fuel2 >= 3 ==> #[trigger] scrobble_drive(dbx, m, p, fuel2)
                        == (
                        committed(with_listen(dbx, db1.scrobbles.last())),
                        Some(Ok::<(), DbError>(())),
                    )
            }
        }),
{
    let t = scrobble_track(title, ids, album_id);
    let (m, p) = scrobble_enter_track(title, ids, album_id);
    let (tm, tp) = track_start(t);
    if ids.len() == 0 {
        scrobble_drive_basics(db, m, p, fuel);
    }
    assert(ids.len() > 0);
    let find = RequestModel::FindTrack { title, artist_ids: ids };
    assert(tp == ProgressModel::<i32>::Request(find));
    assert(m == in_track(album_id, tm));
    assert(p == ProgressModel::<()>::Request(find));
    track_phase(db, album_id, tm, find, fuel);
    let (dbu, o) = track_drive(db, tm, tp, fuel);
    assert(track_stored(db, t, fuel) == (dbu, o));
    let tid = o->0->Ok_0;
    let rest = track_rest(db, tm, tp, fuel);
    listen_phase(dbu, tid, album_id, rest);
    let db1 = committed(with_listen(dbu, (tid, album_id)));
    track_stored_cases(db, t, fuel);
    track_stored_wf(db, t, fuel);
    assert(tables_wf(db1));
    assert(db1.scrobbles.last() == (tid, album_id));
    if ids.no_duplicates() {
        track_twice(db, t, fuel, 1);
        assert(track_known(dbu, title, ids, tid));
        track_known_frame(dbu, db1, title, ids, tid);
        assert forall|dbx: Tables, fuel2: nat|
            rows_match(dbx, db1) && fuel2 >= 3 implies #[trigger] scrobble_drive(dbx, m, p, fuel2) == (
            committed(with_listen(dbx, db1.scrobbles.last())),
            Some(Ok::<(), DbError>(())),
        ) by {
            track_known_frame(db1, dbx, title, ids, tid);
            track_found_once(dbx, title, ids, album_id, tid, fuel2);
            track_phase(dbx, album_id, tm, find, fuel2);
            listen_phase(dbx, tid, album_id, (fuel2 - 1) as nat);
        }
    }
}

proof fn album_found_once(db: Tables, title: Seq<char>, artist_ids: Seq<i32>, id: i32, fuel: nat)
    requires
        artist_ids.len() > 0,
        fuel >= 1,
        album_known(db, title, artist_ids, id),
    ensures
        ({
            let (m, p) = album_start(title, artist_ids);
            &&& album_drive(db, m, p, fuel) == (db, Some(Ok::<i32, DbError>(id)))
            &&& album_rest(db, m, p, fuel) == fuel - 1
        }),
{
    let (m, p) = album_start(title, artist_ids);
    let find = RequestModel::FindAlbum { title, artist_ids };
    assert(answer(db, find) == Some((db, DbReply::Found(Some(id)))));
    album_drive_request(db, m, find, fuel, db, DbReply::Found(Some(id)));
    album_drive_basics(db, AlbumInsertionModel::Finished, ProgressModel::Finished(Ok(id)), (fuel - 1) as nat);
    reveal_with_fuel(album_rest, 2);
}

/// Storing the album of a scrobble once its artists are stored, then its
/// track and its listen.
proof fn album_stage(
    db: Tables,
    title: Seq<char>,
    ids: Seq<i32>,
    album_title: Seq<char>,
    album_artists: Seq<Seq<char>>,
    album_ids: Seq<i32>,
    fuel: nat,
)
    requires
        tables_wf(db),
        album_ids.len() == album_artists.len(),
        ({
            let (m, p) = scrobble_album_artists_from(title, ids, album_title, album_artists, album_ids);
            scrobble_drive(db, m, p, fuel).1 == Some(Ok::<(), DbError>(()))
        }),
    ensures
        ({
            let (m, p) = scrobble_album_artists_from(title, ids, album_title, album_artists, album_ids);
            let db1 = scrobble_drive(db, m, p, fuel).0;
            &&& tables_wf(db1)
            &&& db1.depth == committed(db).depth
            &&& db1.saved == committed(db).saved
            &&& db1.artists == db.artists
            &&& db1.next_artist == db.next_artist
            &&& db1.scrobbles.len() > 0
            &&& db1.scrobbles == db.scrobbles.push(db1.scrobbles.last())
            &&& track_titled(db1, db1.scrobbles.last().0, title)
            &&& db1.scrobbles.last().1 matches Some(a) && album_titled(db1, a, album_title)
            &&& album_ids.no_duplicates() ==> (db1.scrobbles.last().1 matches Some(a) && album_known(
                db1,
                album_title,
                album_ids,
                a,
            ))
            &&& (ids.no_duplicates() && album_ids.no_duplicates()) ==> {
                &&& track_known(db1, title, ids, db1.scrobbles.last().0)
                &&& forall|dbx: Tables, fuel2: nat|
                    rows_match(dbx, db1) && fuel2 >= 4 ==> #[trigger] scrobble_drive(dbx, m, p, fuel2)
                        == (
                        committed(with_listen(dbx, db1.scrobbles.last())),
                        Some(Ok::<(), DbError>(())),
                    )
            }
        }),
{
    let (m, p) = scrobble_album_artists_from(title, ids, album_title, album_artists, album_ids);
    let (am, ap) = album_start(album_title, album_ids);
    if album_ids.len() == 0 {
        scrobble_drive_basics(db, m, p, fuel);
    }
    assert(album_ids.len() > 0);
    let find = RequestModel::FindAlbum { title: album_title, artist_ids: album_ids };
    assert(ap == ProgressModel::<i32>::Request(find));
    assert(m == in_album(title, ids, am));
    assert(p == ProgressModel::<()>::Request(find));
    album_phase(db, title, ids, am, find, fuel);
    let (dbb, o) = album_drive(db, am, ap, fuel);
    assert(album_stored(db, album_title, album_ids, fuel) == (dbb, o));
    let aid = o->0->Ok_0;
    let rest = album_rest(db, am, ap, fuel);
    let (tm, tp) = scrobble_enter_track(title, ids, Some(aid));
    album_stored_cases(db, album_title, album_ids, fuel);
    album_stored_wf(db, album_title, album_ids, fuel);
    track_stage(dbb, title, ids, Some(aid), rest);
    let db1 = scrobble_drive(dbb, tm, tp, rest).0;
    assert(album_titled(db1, aid, album_title));
    if album_ids.no_duplicates() {
        album_twice(db, album_title, album_ids, fuel, 1);
        assert(album_known(dbb, album_title, album_ids, aid));
        album_known_frame(dbb, db1, album_title, album_ids, aid);
        if ids.no_duplicates() {
            assert forall|dbx: Tables, fuel2: nat|
                rows_match(dbx, db1) && fuel2 >= 4 implies #[trigger] scrobble_drive(dbx, m, p, fuel2)
                == (committed(with_listen(dbx, db1.scrobbles.last())), Some(Ok::<(), DbError>(())))
                by {
                album_known_frame(db1, dbx, album_title, album_ids, aid);
                album_found_once(dbx, album_title, album_ids, aid, fuel2);
                album_phase(dbx, title, ids, am, find, fuel2);
                assert(scrobble_drive(dbx, tm, tp, (fuel2 - 1) as nat) == (
                    committed(with_listen(dbx, db1.scrobbles.last())),
                    Some(Ok::<(), DbError>(())),
                ));
            }
        }
    }
}

proof fn artist_found_once(db: Tables, name: Seq<char>, id: i32, fuel: nat)
    requires
        fuel >= 1,
        artist_known(db, name, id),
    ensures
        ({
            let (m, r) = artist_start(name);
            &&& artist_drive(db, m, ProgressModel::Request(r), fuel) == (db, Some(Ok::<i32, DbError>(id)))
            &&& artist_rest(db, m, ProgressModel::Request(r), fuel) == fuel - 1
        }),
{
    let (m, r) = artist_start(name);
    assert(answer(db, r) == Some((db, DbReply::Found(Some(id)))));
    artist_drive_request(db, m, r, fuel, db, DbReply::Found(Some(id)));
    artist_drive_basics(db, ArtistInsertionModel::Finished, ProgressModel::Finished(Ok(id)), (fuel - 1) as nat);
    reveal_with_fuel(artist_rest, 2);
}

/// Distinct names known in `db` are known under distinct ids.
proof fn known_ids_distinct(db: Tables, names: Seq<Seq<char>>, ids: Seq<i32>)
    requires
        names.no_duplicates(),
        ids.len() <= names.len(),
        forall|i: int| 0 <= i < ids.len() ==> artist_known(db, #[trigger] names[i], ids[i]),
    ensures
        ids.no_duplicates(),
{
    assert forall|i: int, j: int| 0 <= i < ids.len() && 0 <= j < ids.len() && i != j implies ids[i]
        != ids[j] by {
        assert(artist_known(db, names[i], ids[i]));
        assert(artist_known(db, names[j], ids[j]));
        lookup_found(|k: i32| artist_matches(db, k, names[i]), ids[i]);
        lookup_found(|k: i32| artist_matches(db, k, names[j]), ids[j]);
    }
}

/// Storing the album artists of a scrobble from the `album_ids.len()`-th
/// on, then its album, track and listen.
proof fn album_artists_stage(
    db: Tables,
    title: Seq<char>,
    ids: Seq<i32>,
    album_title: Seq<char>,
    album_artists: Seq<Seq<char>>,
    album_ids: Seq<i32>,
    fuel: nat,
)
    requires
        tables_wf(db),
        album_ids.len() <= album_artists.len(),
        forall|i: int|
            0 <= i < album_ids.len() ==> artist_known(db, #[trigger] album_artists[i], album_ids[i]),
        ({
            let (m, p) = scrobble_album_artists_from(title, ids, album_title, album_artists, album_ids);
            scrobble_drive(db, m, p, fuel).1 == Some(Ok::<(), DbError>(()))
        }),
    ensures
        ({
            let (m, p) = scrobble_album_artists_from(title, ids, album_title, album_artists, album_ids);
            let db1 = scrobble_drive(db, m, p, fuel).0;
            &&& tables_wf(db1)
            &&& db1.depth == committed(db).depth
            &&& db1.saved == committed(db).saved
            &&& forall|x: Seq<char>, i: i32|
                #[trigger] artist_known(db, x, i) ==> artist_known(db1, x, i)
            &&& db1.scrobbles.len() > 0
            &&& db1.scrobbles == db.scrobbles.push(db1.scrobbles.last())
            &&& track_titled(db1, db1.scrobbles.last().0, title)
            &&& db1.scrobbles.last().1 matches Some(a) && album_titled(db1, a, album_title)
            &&& album_artists.no_duplicates() ==> exists|found: Seq<i32>|
                #[trigger] names_resolve(db1, album_artists, found) && (db1.scrobbles.last().1 matches Some(
                    a,
                ) && album_known(db1, album_title, found, a))
            &&& (ids.no_duplicates() && album_artists.no_duplicates()) ==> {
                &&& track_known(db1, title, ids, db1.scrobbles.last().0)
                &&& forall|dbx: Tables, fuel2: nat|
                    rows_match(dbx, db1) && fuel2 >= album_artists.len() - album_ids.len() + 4
                        ==> #[trigger] scrobble_drive(dbx, m, p, fuel2) == (
                        committed(with_listen(dbx, db1.scrobbles.last())),
                        Some(Ok::<(), DbError>(())),
                    )
            }
        }),
    decreases album_artists.len() - album_ids.len(),
{
    let (m, p) = scrobble_album_artists_from(title, ids, album_title, album_artists, album_ids);
    if album_ids.len() == album_artists.len() {
        album_stage(db, title, ids, album_title, album_artists, album_ids, fuel);
        let db1 = scrobble_drive(db, m, p, fuel).0;
        assert forall|x: Seq<char>, i: i32| #[trigger] artist_known(db, x, i) implies artist_known(
            db1,
            x,
            i,
        ) by {
            artist_known_frame(db, db1, x, i);
        }
        if album_artists.no_duplicates() {
            known_ids_distinct(db, album_artists, album_ids);
            assert forall|i: int| 0 <= i < album_artists.len() implies artist_known(
                db1,
                #[trigger] album_artists[i],
                album_ids[i],
            ) by {
                assert(artist_known(db, album_artists[i], album_ids[i]));
            }
            assert(names_resolve(db1, album_artists, album_ids));
        }
    } else {
        let k = album_ids.len() as int;
        let name = album_artists[k];
        let (am, r) = artist_start(name);
        let ap = ProgressModel::<i32>::Request(r);
        assert(m == in_album_artists(title, ids, album_title, album_artists, album_ids, am));
        assert(p == ProgressModel::<()>::Request(r));
        album_artist_phase(db, title, ids, album_title, album_artists, album_ids, am, r, fuel);
        let (db2, o) = artist_drive(db, am, ap, fuel);
        assert(artist_stored(db, name, fuel) == (db2, o));
        let id = o->0->Ok_0;
        let rest = artist_rest(db, am, ap, fuel);
        artist_stored_keeps(db, name, fuel);
        let ids2 = album_ids.push(id);
        assert forall|i: int| 0 <= i < ids2.len() implies artist_known(
            db2,
            #[trigger] album_artists[i],
            ids2[i],
        ) by {
            if i < k {
                assert(artist_known(db, album_artists[i], album_ids[i]));
            }
        }
        album_artists_stage(db2, title, ids, album_title, album_artists, ids2, rest);
        let (m2, p2) = scrobble_album_artists_from(title, ids, album_title, album_artists, ids2);
        let db1 = scrobble_drive(db2, m2, p2, rest).0;
        assert(artist_known(db1, name, id));
        if ids.no_duplicates() && album_artists.no_duplicates() {
            assert forall|dbx: Tables, fuel2: nat|
                rows_match(dbx, db1) && fuel2 >= album_artists.len() - album_ids.len() + 4
                    implies #[trigger] scrobble_drive(dbx, m, p, fuel2) == (
                committed(with_listen(dbx, db1.scrobbles.last())),
                Some(Ok::<(), DbError>(())),
            ) by {
                artist_known_frame(db1, dbx, name, id);
                artist_found_once(dbx, name, id, fuel2);
                album_artist_phase(dbx, title, ids, album_title, album_artists, album_ids, am, r, fuel2);
                assert(scrobble_drive(dbx, m2, p2, (fuel2 - 1) as nat) == (
                    committed(with_listen(dbx, db1.scrobbles.last())),
                    Some(Ok::<(), DbError>(())),
                ));
            }
        }
    }
}

/// The requests that look up the album of `s` and its artists, when it
/// names one.
pub open spec fn album_requests(s: NewScrobbleModel) -> nat {
    match (s.album_title, s.album_artists) {
        (Some(_), Some(album_artists)) => album_artists.len() + 1,
        _ => 0,
    }
}

/// The requests of storing `s` when everything it names is stored already:
/// the transaction, one lookup per artist, the album and the track, the
/// listen and the commit.
pub open spec fn scrobble_requests(s: NewScrobbleModel) -> nat {
    s.track_artists.len() + album_requests(s) + 4
}

/// No artist is named twice among the track artists, nor among the album
/// artists.
pub open spec fn artists_named_once(s: NewScrobbleModel) -> bool {
    &&& s.track_artists.no_duplicates()
    &&& s.album_artists matches Some(album_artists) ==> album_artists.no_duplicates()
}

/// `ids` are what the artist names `names` are found as in `db`, in order.
pub open spec fn names_resolve(db: Tables, names: Seq<Seq<char>>, ids: Seq<i32>) -> bool {
    &&& ids.len() == names.len()
    &&& forall|i: int| 0 <= i < names.len() ==> artist_known(db, #[trigger] names[i], ids[i])
}

/// `listen` is of the track that `s` names, found by its title and the
/// artists its track artists are found as in `db`, and on the album that
/// `s` names, found the same way, or on no album when `s` names none.
pub open spec fn listen_of(db: Tables, s: NewScrobbleModel, listen: (i32, Option<i32>)) -> bool {
    &&& exists|found: Seq<i32>|
        #[trigger] names_resolve(db, s.track_artists, found) && track_known(
            db,
            s.track_title,
            found,
            listen.0,
        )
    &&& match (s.album_title, s.album_artists) {
        (Some(album_title), Some(album_artists)) => exists|found: Seq<i32>|
            #[trigger] names_resolve(db, album_artists, found) && (listen.1 matches Some(a)
                && album_known(db, album_title, found, a)),
        _ => listen.1 is None,
    }
}

/// `listen` is of a track with the title that `s` names, on an album with
/// the title that `s` names, or on no album when `s` names none.
pub open spec fn listen_titled(db: Tables, s: NewScrobbleModel, listen: (i32, Option<i32>)) -> bool {
    &&& track_titled(db, listen.0, s.track_title)
    &&& match (s.album_title, s.album_artists) {
        (Some(album_title), Some(_)) => listen.1 matches Some(a) && album_titled(db, a, album_title),
        _ => listen.1 is None,
    }
}

/// Storing the track artists of `s` from the `ids.len()`-th on, then the
/// rest of the scrobble.
proof fn track_artists_stage(db: Tables, s: NewScrobbleModel, ids: Seq<i32>, fuel: nat)
    requires
        tables_wf(db),
        ids.len() <= s.track_artists.len(),
        forall|i: int| 0 <= i < ids.len() ==> artist_known(db, #[trigger] s.track_artists[i], ids[i]),
        ({
            let (m, p) = scrobble_track_artists_from(s, ids);
            scrobble_drive(db, m, p, fuel).1 == Some(Ok::<(), DbError>(()))
        }),
    ensures
        ({
            let (m, p) = scrobble_track_artists_from(s, ids);
            let db1 = scrobble_drive(db, m, p, fuel).0;
            &&& tables_wf(db1)
            &&& db1.depth == committed(db).depth
            &&& db1.saved == committed(db).saved
            &&& forall|x: Seq<char>, i: i32|
                #[trigger] artist_known(db, x, i) ==> artist_known(db1, x, i)
            &&& db1.scrobbles.len() > 0
            &&& db1.scrobbles == db.scrobbles.push(db1.scrobbles.last())
            &&& listen_titled(db1, s, db1.scrobbles.last())
            &&& artists_named_once(s) ==> {
                &&& listen_of(db1, s, db1.scrobbles.last())
                &&& forall|dbx: Tables, fuel2: nat|
                    rows_match(dbx, db1) && fuel2 >= s.track_artists.len() - ids.len()
                        + album_requests(s) + 3 ==> #[trigger] scrobble_drive(dbx, m, p, fuel2) == (
                        committed(with_listen(dbx, db1.scrobbles.last())),
                        Some(Ok::<(), DbError>(())),
                    )
            }
        }),
    decreases s.track_artists.len() - ids.len(),
{
    let (m, p) = scrobble_track_artists_from(s, ids);
    if ids.len() == s.track_artists.len() {
        assert((m, p) == scrobble_enter_album(s, ids));
        let db1 = scrobble_drive(db, m, p, fuel).0;
        match (s.album_title, s.album_artists) {
            (Some(album_title), Some(album_artists)) => {
                album_artists_stage(db, s.track_title, ids, album_title, album_artists, Seq::empty(), fuel);
            },
            _ => {
                track_stage(db, s.track_title, ids, None, fuel);
                assert forall|x: Seq<char>, i: i32| #[trigger] artist_known(db, x, i) implies artist_known(
                    db1,
                    x,
                    i,
                ) by {
                    artist_known_frame(db, db1, x, i);
                }
            },
        }
        if artists_named_once(s) {
            known_ids_distinct(db, s.track_artists, ids);
            assert forall|i: int| 0 <= i < ids.len() implies artist_known(
                db1,
                #[trigger] s.track_artists[i],
                ids[i],
            ) by {
                assert(artist_known(db, s.track_artists[i], ids[i]));
            }
            assert(names_resolve(db1, s.track_artists, ids));
        }
    } else {
        let k = ids.len() as int;
        let name = s.track_artists[k];
        let (am, r) = artist_start(name);
        let ap = ProgressModel::<i32>::Request(r);
        assert(m == in_track_artists(s, ids, am));
        assert(p == ProgressModel::<()>::Request(r));
        track_artist_phase(db, s, ids, am, r, fuel);
        let (db2, o) = artist_drive(db, am, ap, fuel);
        assert(artist_stored(db, name, fuel) == (db2, o));
        let id = o->0->Ok_0;
        let rest = artist_rest(db, am, ap, fuel);
        artist_stored_keeps(db, name, fuel);
        let ids2 = ids.push(id);
        assert forall|i: int| 0 <= i < ids2.len() implies artist_known(
            db2,
            #[trigger] s.track_artists[i],
            ids2[i],
        ) by {
            if i < k {
                assert(artist_known(db, s.track_artists[i], ids[i]));
            }
        }
        track_artists_stage(db2, s, ids2, rest);
        let (m2, p2) = scrobble_track_artists_from(s, ids2);
        let db1 = scrobble_drive(db2, m2, p2, rest).0;
        assert(artist_known(db1, name, id));
        if artists_named_once(s) {
            assert forall|dbx: Tables, fuel2: nat|
                rows_match(dbx, db1) && fuel2 >= s.track_artists.len() - ids.len() + album_requests(s)
                    + 3 implies #[trigger] scrobble_drive(dbx, m, p, fuel2) == (
                committed(with_listen(dbx, db1.scrobbles.last())),
                Some(Ok::<(), DbError>(())),
            ) by {
                artist_known_frame(db1, dbx, name, id);
                artist_found_once(dbx, name, id, fuel2);
                track_artist_phase(dbx, s, ids, am, r, fuel2);
                assert(scrobble_drive(dbx, m2, p2, (fuel2 - 1) as nat) == (
                    committed(with_listen(dbx, db1.scrobbles.last())),
                    Some(Ok::<(), DbError>(())),
                ));
            }
        }
    }
}

proof fn scrobble_first_run(db0: Tables, s: NewScrobbleModel, fuel: nat)
    requires
        tables_wf(db0),
    ensures
        ({
            let (m1, p1) = scrobble_track_artists_from(s, Seq::empty());
            &&& tables_wf(begun(db0))
            &&& fuel == 0 ==> scrobble_stored(db0, s, fuel) == (db0, None::<Result<(), DbError>>)
            &&& fuel >= 1 ==> scrobble_stored(db0, s, fuel) == scrobble_drive(
                begun(db0),
                m1,
                p1,
                (fuel - 1) as nat,
            )
        }),
{
    let (m, r) = scrobble_start(s);
    let (m1, p1) = scrobble_track_artists_from(s, Seq::empty());
    scrobble_drive_basics(db0, m, ProgressModel::Request(r), fuel);
    assert(answer(db0, RequestModel::Begin) == Some((begun(db0), DbReply::Executed)));
    assert(scrobble_step(m, DbReply::Executed) == (m1, p1));
    if fuel >= 1 {
        scrobble_drive_request(db0, m, RequestModel::Begin, fuel, begun(db0), DbReply::Executed);
    }
}

/// A stored scrobble adds exactly one listen and writes no other listen:
/// one of a track with the title it names, on an album with the title it
/// names when it names an album with artists, and on no album otherwise.
/// Its transaction is over afterwards.
pub proof fn scrobble_adds_one_listen(db0: Tables, s: NewScrobbleModel, fuel: nat)
    requires
        tables_wf(db0),
        scrobble_stored(db0, s, fuel).1 == Some(Ok::<(), DbError>(())),
    ensures
        ({
            let db1 = scrobble_stored(db0, s, fuel).0;
            &&& tables_wf(db1)
            &&& db1.depth == db0.depth
            &&& db1.scrobbles.len() == db0.scrobbles.len() + 1
            &&& db1.scrobbles == db0.scrobbles.push(db1.scrobbles.last())
            &&& listen_titled(db1, s, db1.scrobbles.last())
        }),
{
    scrobble_first_run(db0, s, fuel);
    track_artists_stage(begun(db0), s, Seq::empty(), (fuel - 1) as nat);
}

/// Storing a scrobble that names no artist twice among its track artists,
/// nor among its album artists, records its listen for the track and album
/// that what it names is found as afterwards. Storing the same scrobble
/// again right after finds everything it names as stored and writes one
/// more listen, of the same track on the same album, and nothing else.
pub proof fn scrobble_twice(db0: Tables, s: NewScrobbleModel, fuel: nat, fuel2: nat)
    requires
        tables_wf(db0),
        artists_named_once(s),
        scrobble_stored(db0, s, fuel).1 == Some(Ok::<(), DbError>(())),
        fuel2 >= scrobble_requests(s),
    ensures
        ({
            let db1 = scrobble_stored(db0, s, fuel).0;
            &&& tables_wf(db1)
            &&& db1.scrobbles == db0.scrobbles.push(db1.scrobbles.last())
            &&& listen_of(db1, s, db1.scrobbles.last())
            &&& scrobble_stored(db1, s, fuel2) == (
                with_listen(db1, db1.scrobbles.last()),
                Some(Ok::<(), DbError>(())),
            )
        }),
{
    let (m, r) = scrobble_start(s);
    let (m1, p1) = scrobble_track_artists_from(s, Seq::empty());
    scrobble_first_run(db0, s, fuel);
    track_artists_stage(begun(db0), s, Seq::empty(), (fuel - 1) as nat);
    let db1 = scrobble_drive(begun(db0), m1, p1, (fuel - 1) as nat).0;
    let dbx = begun(db1);
    assert(answer(db1, RequestModel::Begin) == Some((dbx, DbReply::Executed)));
    assert(scrobble_step(m, DbReply::Executed) == (m1, p1));
    scrobble_drive_request(db1, m, RequestModel::Begin, fuel2, dbx, DbReply::Executed);
    assert(rows_match(dbx, db1));
    assert(scrobble_drive(dbx, m1, p1, (fuel2 - 1) as nat) == (
        committed(with_listen(dbx, db1.scrobbles.last())),
        Some(Ok::<(), DbError>(())),
    ));
    assert(committed(with_listen(dbx, db1.scrobbles.last())) == with_listen(db1, db1.scrobbles.last()));
}

proof fn track_stage_fails(db: Tables, title: Seq<char>, ids: Seq<i32>, album_id: Option<i32>, fuel: nat)
    requires
        tables_wf(db),
        db.depth >= 1,
    ensures
        ({
            let (m, p) = scrobble_enter_track(title, ids, album_id);
            let (end, outcome) = scrobble_drive(db, m, p, fuel);
            !(outcome matches Some(Ok(_))) ==> end.saved == db.saved
        }),
{
    let t = scrobble_track(title, ids, album_id);
    let (m, p) = scrobble_enter_track(title, ids, album_id);
    let (tm, tp) = track_start(t);
    if ids.len() == 0 {
        scrobble_drive_basics(db, m, p, fuel);
    } else {
        let find = RequestModel::FindTrack { title, artist_ids: ids };
        assert(tp == ProgressModel::<i32>::Request(find));
        assert(m == in_track(album_id, tm));
        assert(p == ProgressModel::<()>::Request(find));
        track_phase(db, album_id, tm, find, fuel);
        let (dbu, o) = track_drive(db, tm, tp, fuel);
        assert(track_stored(db, t, fuel) == (dbu, o));
        if let Some(Ok(tid)) = o {
            track_stored_cases(db, t, fuel);
            listen_phase(dbu, tid, album_id, track_rest(db, tm, tp, fuel));
        } else {
            track_stored_fails(db, t, fuel);
        }
    }
}

proof fn album_stage_fails(
    db: Tables,
    title: Seq<char>,
    ids: Seq<i32>,
    album_title: Seq<char>,
    album_artists: Seq<Seq<char>>,
    album_ids: Seq<i32>,
    fuel: nat,
)
    requires
        tables_wf(db),
        db.depth >= 1,
        album_ids.len() == album_artists.len(),
    ensures
        ({
            let (m, p) = scrobble_album_artists_from(title, ids, album_title, album_artists, album_ids);
            let (end, outcome) = scrobble_drive(db, m, p, fuel);
            !(outcome matches Some(Ok(_))) ==> end.saved == db.saved
        }),
{
    let (m, p) = scrobble_album_artists_from(title, ids, album_title, album_artists, album_ids);
    let (am, ap) = album_start(album_title, album_ids);
    if album_ids.len() == 0 {
        scrobble_drive_basics(db, m, p, fuel);
    } else {
        let find = RequestModel::FindAlbum { title: album_title, artist_ids: album_ids };
        assert(ap == ProgressModel::<i32>::Request(find));
        assert(m == in_album(title, ids, am));
        assert(p == ProgressModel::<()>::Request(find));
        album_phase(db, title, ids, am, find, fuel);
        let (dbb, o) = album_drive(db, am, ap, fuel);
        assert(album_stored(db, album_title, album_ids, fuel) == (dbb, o));
        if let Some(Ok(aid)) = o {
            album_stored_cases(db, album_title, album_ids, fuel);
            album_stored_wf(db, album_title, album_ids, fuel);
            track_stage_fails(dbb, title, ids, Some(aid), album_rest(db, am, ap, fuel));
        } else {
            album_stored_fails(db, album_title, album_ids, fuel);
        }
    }
}

proof fn album_artists_stage_fails(
    db: Tables,
    title: Seq<char>,
    ids: Seq<i32>,
    album_title: Seq<char>,
    album_artists: Seq<Seq<char>>,
    album_ids: Seq<i32>,
    fuel: nat,
)
    requires
        tables_wf(db),
        db.depth >= 1,
        album_ids.len() <= album_artists.len(),
    ensures
        ({
            let (m, p) = scrobble_album_artists_from(title, ids, album_title, album_artists, album_ids);
            let (end, outcome) = scrobble_drive(db, m, p, fuel);
            !(outcome matches Some(Ok(_))) ==> end.saved == db.saved
        }),
    decreases album_artists.len() - album_ids.len(),
{
    let (m, p) = scrobble_album_artists_from(title, ids, album_title, album_artists, album_ids);
    if album_ids.len() == album_artists.len() {
        album_stage_fails(db, title, ids, album_title, album_artists, album_ids, fuel);
    } else {
        let k = album_ids.len() as int;
        let name = album_artists[k];
        let (am, r) = artist_start(name);
        let ap = ProgressModel::<i32>::Request(r);
        assert(m == in_album_artists(title, ids, album_title, album_artists, album_ids, am));
        assert(p == ProgressModel::<()>::Request(r));
        album_artist_phase(db, title, ids, album_title, album_artists, album_ids, am, r, fuel);
        let (db2, o) = artist_drive(db, am, ap, fuel);
        assert(artist_stored(db, name, fuel) == (db2, o));
        if let Some(Ok(id)) = o {
            artist_stored_keeps(db, name, fuel);
            album_artists_stage_fails(
                db2,
                title,
                ids,
                album_title,
                album_artists,
                album_ids.push(id),
                artist_rest(db, am, ap, fuel),
            );
        } else {
            artist_stored_fails(db, name, fuel);
        }
    }
}

proof fn track_artists_stage_fails(db: Tables, s: NewScrobbleModel, ids: Seq<i32>, fuel: nat)
    requires
        tables_wf(db),
        db.depth >= 1,
        ids.len() <= s.track_artists.len(),
    ensures
        ({
            let (m, p) = scrobble_track_artists_from(s, ids);
            let (end, outcome) = scrobble_drive(db, m, p, fuel);
            !(outcome matches Some(Ok(_))) ==> end.saved == db.saved
        }),
    decreases s.track_artists.len() - ids.len(),
{
    let (m, p) = scrobble_track_artists_from(s, ids);
    if ids.len() == s.track_artists.len() {
        assert((m, p) == scrobble_enter_album(s, ids));
        match (s.album_title, s.album_artists) {
            (Some(album_title), Some(album_artists)) => {
                album_artists_stage_fails(
                    db,
                    s.track_title,
                    ids,
                    album_title,
                    album_artists,
                    Seq::empty(),
                    fuel,
                );
            },
            _ => {
                track_stage_fails(db, s.track_title, ids, None, fuel);
            },
        }
    } else {
        let k = ids.len() as int;
        let name = s.track_artists[k];
        let (am, r) = artist_start(name);
        let ap = ProgressModel::<i32>::Request(r);
        assert(m == in_track_artists(s, ids, am));
        assert(p == ProgressModel::<()>::Request(r));
        track_artist_phase(db, s, ids, am, r, fuel);
        let (db2, o) = artist_drive(db, am, ap, fuel);
        assert(artist_stored(db, name, fuel) == (db2, o));
        if let Some(Ok(id)) = o {
            artist_stored_keeps(db, name, fuel);
            track_artists_stage_fails(db2, s, ids.push(id), artist_rest(db, am, ap, fuel));
        } else {
            artist_stored_fails(db, name, fuel);
        }
    }
}

/// Storing a scrobble outside any transaction that does not succeed, for
/// any reason and wherever it stops (an artist, the album or the track
/// refused, a database error, a missing track artist or album artist),
/// leaves every row as it was once it is abandoned: everything it wrote is
/// inside the transaction it began first.
pub proof fn scrobble_failure_writes_nothing(db0: Tables, s: NewScrobbleModel, fuel: nat)
    requires
        tables_wf(db0),
        idle(db0),
        !(scrobble_stored(db0, s, fuel).1 matches Some(Ok(_))),
    ensures
        same_rows(abandoned(scrobble_stored(db0, s, fuel).0), db0),
{
    scrobble_first_run(db0, s, fuel);
    if fuel >= 1 {
        track_artists_stage_fails(begun(db0), s, Seq::empty(), (fuel - 1) as nat);
    }
    abandoned_inside(db0, scrobble_stored(db0, s, fuel).0);
}

} // verus!
