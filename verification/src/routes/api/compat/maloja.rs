//! The Maloja-compatible scrobbling endpoints: which of the query and the
//! body a submission is read from, and what is stored for it.

use vstd::prelude::*;

use crate::db::scrobble::{NewScrobble, NewScrobbleModel};
use crate::routes::Status;

verus! {

#[verifier::external_type_specification]
#[verifier::external_body]
pub struct ExJiffError(jiff::Error);

/// A new-scrobble submission as Maloja clients send it.
#[derive(Clone, Debug, PartialEq, Eq)]
pub struct MalojaNewScrobbleReq {
    pub artist: Option<String>,
    pub artists: Option<Vec<String>>,
    pub title: String,
    pub album: Option<String>,
    pub albumartists: Option<Vec<String>>,
    pub duration: Option<u16>,
    pub length: Option<u16>,
    /// When the listen happened, in seconds since the Unix epoch.
    pub time: Option<i64>,
    pub nofix: Option<bool>,
}

/// The mathematical content of a [`MalojaNewScrobbleReq`].
pub struct MalojaNewScrobbleReqModel {
    pub artist: Option<Seq<char>>,
    pub artists: Option<Seq<Seq<char>>>,
    pub title: Seq<char>,
    pub album: Option<Seq<char>>,
    pub albumartists: Option<Seq<Seq<char>>>,
    pub duration: Option<u16>,
    pub length: Option<u16>,
    pub time: Option<i64>,
    pub nofix: Option<bool>,
}

/// The content of an optional string.
pub open spec fn opt_text(o: Option<String>) -> Option<Seq<char>> {
    match o {
        Some(s) => Some(s@),
        None => None,
    }
}

/// The content of an optional list of strings.
pub open spec fn opt_texts(o: Option<Vec<String>>) -> Option<Seq<Seq<char>>> {
    match o {
        Some(v) => Some(v.deep_view()),
        None => None,
    }
}

impl View for MalojaNewScrobbleReq {
    type V = MalojaNewScrobbleReqModel;

    open spec fn view(&self) -> MalojaNewScrobbleReqModel {
        MalojaNewScrobbleReqModel {
            artist: opt_text(self.artist),
            artists: opt_texts(self.artists),
            title: self.title@,
            album: opt_text(self.album),
            albumartists: opt_texts(self.albumartists),
            duration: self.duration,
            length: self.length,
            time: self.time,
            nofix: self.nofix,
        }
    }
}

/// The parameters of the Maloja connection test.
#[derive(Clone, Debug, PartialEq, Eq)]
pub struct MalojaTestParamsReq {
    pub key: String,
}

/// The value given in exactly one of two places, if so.
pub open spec fn exactly_one_of<T>(first: Option<T>, second: Option<T>) -> Option<T> {
    match (first, second) {
        (Some(x), None) => Some(x),
        (None, Some(y)) => Some(y),
        _ => None,
    }
}

/// Takes the value given in exactly one of two places (a submission comes
/// either in the query or in the body, never both, never neither).
pub fn exactly_one<T>(first: Option<T>, second: Option<T>) -> (res: Option<T>)
    ensures
        res == exactly_one_of(first, second),
{
    match (first, second) {
        (Some(x), None) => Some(x),
        (None, Some(y)) => Some(y),
        _ => None,
    }
}

/// The Unix seconds that `jiff::Timestamp` represents: those of the years
/// -9999 to 9999 in every time zone offset.
pub open spec fn timestamp_in_range(seconds: int) -> bool {
    -377705023201 <= seconds <= 253402207200
}

/// Calls `jiff::Timestamp::new(seconds, 0)` and reads back its seconds.
/// The source of jiff-core bounds the seconds to the range in
/// [`timestamp_in_range`] and fails outside it; a timestamp built with zero
/// nanoseconds holds exactly the given seconds.
#[verifier::external_body]
fn jiff_timestamp_seconds(seconds: i64) -> (res: Result<i64, jiff::Error>)
    ensures
        res is Ok <==> timestamp_in_range(seconds as int),
        res matches Ok(s) ==> s == seconds,
{
    match jiff::Timestamp::new(seconds, 0) {
        Ok(ts) => Ok(ts.as_second()),
        Err(e) => Err(e),
    }
}

/// A time outside the range of representable timestamps.
#[derive(Clone, Copy, Debug, PartialEq, Eq, Structural)]
pub struct InvalidTimestamp;

/// A listen time is acceptable when absent or representable.
pub open spec fn time_accepted(time: Option<i64>) -> bool {
    match time {
        Some(t) => timestamp_in_range(t as int),
        None => true,
    }
}

/// Checks an optional listen time, keeping it as it is when acceptable.
pub fn checked_timestamp(time: Option<i64>) -> (res: Result<Option<i64>, InvalidTimestamp>)
    ensures
        res is Ok <==> time_accepted(time),
        res matches Ok(t) ==> t == time,
{
    match time {
        None => Ok(None),
        Some(t) => match jiff_timestamp_seconds(t) {
            Ok(s) => Ok(Some(s)),
            Err(_) => Err(InvalidTimestamp),
        },
    }
}

/// The track artists of a submission: the single `artist`, if given,
/// followed by the list `artists`, if given.
pub open spec fn maloja_track_artists(req: MalojaNewScrobbleReqModel) -> Seq<Seq<char>> {
    let first = match req.artist {
        Some(a) => seq![a],
        None => Seq::empty(),
    };
    let rest = match req.artists {
        Some(v) => v,
        None => Seq::empty(),
    };
    first + rest
}

/// The scrobble stored for an accepted submission.
pub open spec fn maloja_scrobble(req: MalojaNewScrobbleReqModel) -> NewScrobbleModel {
    NewScrobbleModel {
        utc_timestamp: req.time,
        track_title: req.title,
        track_artists: maloja_track_artists(req),
        album_title: req.album,
        album_artists: req.albumartists,
    }
}

impl NewScrobble {
    /// The scrobble of a Maloja submission; refused when its time is not a
    /// representable timestamp.
    pub fn try_from(value: MalojaNewScrobbleReq) -> (res: Result<NewScrobble, InvalidTimestamp>)
        ensures
            res is Ok <==> time_accepted(value.time),
            res matches Ok(s) ==> s@ == maloja_scrobble(value@),
    {
        let ghost req = value@;
        let mut track_artists: Vec<String> = Vec::new();
        if let Some(a) = value.artist {
            track_artists.push(a);
        }
        assert(track_artists.deep_view() =~= match req.artist {
            Some(a) => seq![a],
            None => Seq::<Seq<char>>::empty(),
        });
        if let Some(mut others) = value.artists {
            let ghost before = track_artists.deep_view();
            track_artists.append(&mut others);
            assert(track_artists.deep_view() =~= before + req.artists->0);
        } else {
            assert(track_artists.deep_view() =~= track_artists.deep_view() + Seq::<Seq<char>>::empty());
        }
        let utc_timestamp = match checked_timestamp(value.time) {
            Ok(t) => t,
            Err(e) => return Err(e),
        };
        Ok(NewScrobble {
            utc_timestamp,
            track_title: value.title,
            track_artists,
            album_title: value.album,
            album_artists: value.albumartists,
        })
    }
}

/// What a new-scrobble submission leads to: the submission must come in
/// exactly one of the query and the body, have a representable time and at
/// least one track artist; then its scrobble is to be stored.
pub open spec fn maloja_new_scrobble_outcome(
    query: Option<MalojaNewScrobbleReq>,
    body: Option<MalojaNewScrobbleReq>,
) -> Result<NewScrobbleModel, Status> {
    match exactly_one_of(query, body) {
        None => Err(Status::BadRequest),
        Some(req) => if !time_accepted(req.time) {
            Err(Status::BadRequest)
        } else if maloja_track_artists(req@).len() == 0 {
            Err(Status::BadRequest)
        } else {
            Ok(maloja_scrobble(req@))
        },
    }
}

/// A submission is accepted exactly when it comes from one of the query and
/// the body but not both, its time is absent or lies within
/// -377705023201..=253402207200 (the Unix seconds of the years -9999 to
/// 9999), and it names at least one track artist through `artist` or a
/// non-empty `artists`; what it says of its album plays no part. Everything
/// refused is a bad request. The scrobble of an accepted submission has its
/// time, title, album title and album artists, and as track artists
/// `artist`, if given, then every one of `artists`, in order.
pub proof fn maloja_new_scrobble_accepts(
    query: Option<MalojaNewScrobbleReq>,
    body: Option<MalojaNewScrobbleReq>,
)
    ensures
        ({
            let req = if query is Some {
                query->0
            } else {
                body->0
            };
            let single = (query is Some) != (body is Some);
            let time_ok = match req.time {
                Some(t) => -377705023201 <= t <= 253402207200,
                None => true,
            };
            let named = req.artist is Some || (req.artists matches Some(v) && v.len() > 0);
            let first: int = if req.artist is Some {
                1
            } else {
                0
            };
            let others = match req.artists {
                Some(v) => v@,
                None => Seq::<String>::empty(),
            };
            &&& maloja_new_scrobble_outcome(query, body) is Ok <==> (single && time_ok && named)
            &&& maloja_new_scrobble_outcome(query, body) is Err ==> maloja_new_scrobble_outcome(
                query,
                body,
            ) == Err::<NewScrobbleModel, Status>(Status::BadRequest)
            &&& maloja_new_scrobble_outcome(query, body) matches Ok(s) ==> {
                &&& s.utc_timestamp == req.time
                &&& s.track_title == req.title@
                &&& s.album_title == opt_text(req.album)
                &&& s.album_artists == opt_texts(req.albumartists)
                &&& s.track_artists.len() == first + others.len()
                &&& (req.artist matches Some(a) ==> s.track_artists[0] == a@)
                &&& forall|i: int|
                    0 <= i < others.len() ==> s.track_artists[first + i] == others[i]@
            }
        }),
{
    let req = if query is Some {
        query->0
    } else {
        body->0
    };
    let first = match req@.artist {
        Some(a) => seq![a],
        None => Seq::<Seq<char>>::empty(),
    };
    let rest = match req@.artists {
        Some(v) => v,
        None => Seq::<Seq<char>>::empty(),
    };
    assert(maloja_track_artists(req@) == first + rest);
    if let Some(v) = req.artists {
        assert(rest == v.deep_view());
        assert forall|i: int| 0 <= i < v@.len() implies #[trigger] rest[i] == v@[i]@ by {}
    }
}

/// Decides a new-scrobble submission read from the query and from the body
/// (`None` where there was none): the scrobble to store, or the status to
/// answer with.
pub fn maloja_new_scrobble(
    query: Option<MalojaNewScrobbleReq>,
    body: Option<MalojaNewScrobbleReq>,
) -> (res: Result<NewScrobble, Status>)
    ensures
        res is Ok <==> maloja_new_scrobble_outcome(query, body) is Ok,
        res matches Ok(s) ==> maloja_new_scrobble_outcome(query, body) == Ok::<
            NewScrobbleModel,
            Status,
        >(s@),
        res matches Err(e) ==> maloja_new_scrobble_outcome(query, body) == Err::<
            NewScrobbleModel,
            Status,
        >(e),
{
    let req = match exactly_one(query, body) {
        Some(req) => req,
        None => return Err(Status::BadRequest),
    };
    let new_scrobble = match NewScrobble::try_from(req) {
        Ok(s) => s,
        Err(_) => return Err(Status::BadRequest),
    };
    if new_scrobble.track_artists.len() == 0 {
        return Err(Status::BadRequest);
    }
    Ok(new_scrobble)
}

} // verus!
