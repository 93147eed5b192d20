//! Storing a track: reuse the track with this title and exactly these
//! artists, or insert it, credit every artist and place it on its album,
//! inside a transaction.

use vstd::prelude::*;

use crate::db::{
    slugify, slugify_result, DbError, DbReply, DbRequest, Progress, ProgressModel, RequestModel, executed_replies,
};

verus! {

/// A track lookup or insertion was asked for with no artist.
#[derive(Clone, Copy, Debug, Default, PartialEq, Eq, Structural)]
pub struct NoArtistsError;

/// A track to be stored.
#[derive(Clone, Debug, PartialEq, Eq)]
pub struct NewTrack {
    pub title: String,
    pub artist_ids: Vec<i32>,
    /// Length in seconds, if known.
    pub length: Option<i32>,
    /// The album the track belongs to, if any.
    pub album_id: Option<i32>,
    /// The position on that album; needed whenever `album_id` is given.
    pub album_track_number: Option<i32>,
}

/// The mathematical content of a [`NewTrack`].
pub struct NewTrackModel {
    pub title: Seq<char>,
    pub artist_ids: Seq<i32>,
    pub length: Option<i32>,
    pub album_id: Option<i32>,
    pub album_track_number: Option<i32>,
}

impl View for NewTrack {
    type V = NewTrackModel;

    open spec fn view(&self) -> NewTrackModel {
        NewTrackModel {
            title: self.title@,
            artist_ids: self.artist_ids@,
            length: self.length,
            album_id: self.album_id,
            album_track_number: self.album_track_number,
        }
    }
}

impl NewTrackModel {
    /// A track placed on an album carries its position there.
    pub open spec fn numbered_if_on_album(self) -> bool {
        self.album_id is Some ==> self.album_track_number is Some
    }

    /// The album placement as (album id, track number).
    pub open spec fn album_link(self) -> Option<(i32, i32)> {
        match (self.album_id, self.album_track_number) {
            (Some(album_id), Some(number)) => Some((album_id, number)),
            _ => None,
        }
    }
}

/// The lookup of a track by title and artist set, refused for an empty set.
pub open spec fn find_track_request(title: Seq<char>, artists: Seq<i32>) -> Result<
    RequestModel,
    NoArtistsError,
> {
    if artists.len() == 0 {
        Err(NoArtistsError)
    } else {
        Ok(RequestModel::FindTrack { title, artist_ids: artists })
    }
}

/// The request that looks up the track `title` credited to exactly
/// `artists`; refused when `artists` is empty.
pub fn find_track(title: &str, artists: &[i32]) -> (res: Result<DbRequest, NoArtistsError>)
    ensures
        res is Ok <==> find_track_request(title@, artists@) is Ok,
        res matches Ok(r) ==> find_track_request(title@, artists@) == Ok::<
            RequestModel,
            NoArtistsError,
        >(r@),
        res matches Err(e) ==> find_track_request(title@, artists@) == Err::<
            RequestModel,
            NoArtistsError,
        >(e),
{
    if artists.len() == 0 {
        return Err(NoArtistsError);
    }
    Ok(DbRequest::FindTrack { title: title.to_owned(), artist_ids: vstd::slice::slice_to_vec(artists) })
}

/// What the insertion keeps of the track it stores.
pub struct TrackPlan {
    title: String,
    artist_ids: Vec<i32>,
    length: Option<i32>,
    album: Option<(i32, Option<i32>)>,
}

/// The mathematical content of a [`TrackPlan`].
pub struct TrackPlanModel {
    pub title: Seq<char>,
    pub artist_ids: Seq<i32>,
    pub length: Option<i32>,
    /// The album, with the position on it when given.
    pub album: Option<(i32, Option<i32>)>,
}

impl View for TrackPlan {
    type V = TrackPlanModel;

    closed spec fn view(&self) -> TrackPlanModel {
        TrackPlanModel {
            title: self.title@,
            artist_ids: self.artist_ids@,
            length: self.length,
            album: self.album,
        }
    }
}

/// The plan kept for `t`.
pub open spec fn track_plan(t: NewTrackModel) -> TrackPlanModel {
    TrackPlanModel {
        title: t.title,
        artist_ids: t.artist_ids,
        length: t.length,
        album: match t.album_id {
            Some(album_id) => Some((album_id, t.album_track_number)),
            None => None,
        },
    }
}

/// The find-or-insert of one track.
pub enum TrackInsertion {
    /// The lookup was issued.
    AwaitFind { plan: TrackPlan },
    /// The transaction was opened.
    AwaitBegin { plan: TrackPlan },
    /// The insert of the track was issued.
    AwaitInsert { plan: TrackPlan },
    /// The credit of `plan.artist_ids[next]` on the new track was issued.
    Linking { plan: TrackPlan, track_id: i32, next: usize },
    /// The placement of the new track on its album was issued.
    AwaitAlbumLink { track_id: i32 },
    /// The commit was issued.
    AwaitCommit { track_id: i32 },
    /// The operation is over.
    Finished,
}

/// The mathematical content of a [`TrackInsertion`].
pub enum TrackInsertionModel {
    AwaitFind { plan: TrackPlanModel },
    AwaitBegin { plan: TrackPlanModel },
    AwaitInsert { plan: TrackPlanModel },
    Linking { plan: TrackPlanModel, track_id: i32, next: int },
    AwaitAlbumLink { track_id: i32 },
    AwaitCommit { track_id: i32 },
    Finished,
}

impl View for TrackInsertion {
    type V = TrackInsertionModel;

    open spec fn view(&self) -> TrackInsertionModel {
        match self {
            TrackInsertion::AwaitFind { plan } => TrackInsertionModel::AwaitFind { plan: plan@ },
            TrackInsertion::AwaitBegin { plan } => TrackInsertionModel::AwaitBegin { plan: plan@ },
            TrackInsertion::AwaitInsert { plan } => TrackInsertionModel::AwaitInsert {
                plan: plan@,
            },
            TrackInsertion::Linking { plan, track_id, next } => TrackInsertionModel::Linking {
                plan: plan@,
                track_id: *track_id,
                next: *next as int,
            },
            TrackInsertion::AwaitAlbumLink { track_id } => TrackInsertionModel::AwaitAlbumLink {
                track_id: *track_id,
            },
            TrackInsertion::AwaitCommit { track_id } => TrackInsertionModel::AwaitCommit {
                track_id: *track_id,
            },
            TrackInsertion::Finished => TrackInsertionModel::Finished,
        }
    }
}

/// Starting: a track with no artist is refused at once; otherwise it is
/// looked up.
pub open spec fn track_start(t: NewTrackModel) -> (TrackInsertionModel, ProgressModel<i32>) {
    if t.artist_ids.len() == 0 {
        (TrackInsertionModel::Finished, ProgressModel::Finished(Err(DbError::NoArtists)))
    } else {
        (
            TrackInsertionModel::AwaitFind { plan: track_plan(t) },
            ProgressModel::Request(
                RequestModel::FindTrack { title: t.title, artist_ids: t.artist_ids },
            ),
        )
    }
}

/// Credits `plan.artist_ids[next]`; once every artist is credited, places
/// the track on its album if it has one, else commits. A track placed on an
/// album without a position there ends the operation.
pub open spec fn track_link_from(plan: TrackPlanModel, track_id: i32, next: int) -> (
    TrackInsertionModel,
    ProgressModel<i32>,
) {
    if 0 <= next < plan.artist_ids.len() {
        (
            TrackInsertionModel::Linking { plan, track_id, next },
            ProgressModel::Request(
                RequestModel::LinkTrackArtist {
                    track_id,
                    artist_id: plan.artist_ids[next],
                    artist_order: 0,
                },
            ),
        )
    } else {
        match plan.album {
            Some((album_id, Some(track_number))) => (
                TrackInsertionModel::AwaitAlbumLink { track_id },
                ProgressModel::Request(
                    RequestModel::LinkAlbumTrack { album_id, track_id, track_number },
                ),
            ),
            Some((_, None)) => (
                TrackInsertionModel::Finished,
                ProgressModel::Finished(Err(DbError::MissingTrackNumber)),
            ),
            None => (
                TrackInsertionModel::AwaitCommit { track_id },
                ProgressModel::Request(RequestModel::Commit),
            ),
        }
    }
}

/// One reply: a found track is reused; otherwise a transaction is opened,
/// the track inserted under the slug of its title with its length, each
/// artist credited in order with position 0, the track placed on its album
/// if it has one, the transaction committed, and the new id is the outcome.
pub open spec fn track_step(m: TrackInsertionModel, reply: DbReply) -> (
    TrackInsertionModel,
    ProgressModel<i32>,
) {
    match (m, reply) {
        (TrackInsertionModel::AwaitFind { plan }, DbReply::Found(Some(id))) => (
            TrackInsertionModel::Finished,
            ProgressModel::Finished(Ok(id)),
        ),
        (TrackInsertionModel::AwaitFind { plan }, DbReply::Found(None)) => (
            TrackInsertionModel::AwaitBegin { plan },
            ProgressModel::Request(RequestModel::Begin),
        ),
        (TrackInsertionModel::AwaitBegin { plan }, DbReply::Executed) => (
            TrackInsertionModel::AwaitInsert { plan },
            ProgressModel::Request(
                RequestModel::InsertTrack {
                    title: plan.title,
                    slug: slugify_result(plan.title),
                    length: plan.length,
                },
            ),
        ),
        (TrackInsertionModel::AwaitInsert { plan }, DbReply::Created(track_id)) =>
            track_link_from(plan, track_id, 0),
        (TrackInsertionModel::Linking { plan, track_id, next }, DbReply::Executed) =>
            track_link_from(plan, track_id, next + 1),
        (TrackInsertionModel::AwaitAlbumLink { track_id }, DbReply::Executed) => (
            TrackInsertionModel::AwaitCommit { track_id },
            ProgressModel::Request(RequestModel::Commit),
        ),
        (TrackInsertionModel::AwaitCommit { track_id }, DbReply::Executed) => (
            TrackInsertionModel::Finished,
            ProgressModel::Finished(Ok(track_id)),
        ),
        _ => (TrackInsertionModel::Finished, ProgressModel::Finished(Err(DbError::UnexpectedReply))),
    }
}

impl TrackInsertion {
    /// Starts storing `new_track`.
    pub fn insert_track(new_track: NewTrack) -> (res: (TrackInsertion, Progress<i32>))
        ensures
            (res.0@, res.1@) == track_start(new_track@),
    {
        if new_track.artist_ids.len() == 0 {
            return (TrackInsertion::Finished, Progress::Finished(Err(DbError::NoArtists)));
        }
        let request = match find_track(new_track.title.as_str(), new_track.artist_ids.as_slice()) {
            Ok(request) => request,
            Err(_) => {
                return (TrackInsertion::Finished, Progress::Finished(Err(DbError::NoArtists)));
            },
        };
        let album = match new_track.album_id {
            Some(album_id) => Some((album_id, new_track.album_track_number)),
            None => None,
        };
        let plan = TrackPlan {
            title: new_track.title,
            artist_ids: new_track.artist_ids,
            length: new_track.length,
            album,
        };
        (TrackInsertion::AwaitFind { plan }, Progress::Request(request))
    }

    fn link_from(plan: TrackPlan, track_id: i32, next: usize) -> (res: (
        TrackInsertion,
        Progress<i32>,
    ))
        ensures
            (res.0@, res.1@) == track_link_from(plan@, track_id, next as int),
    {
        if next < plan.artist_ids.len() {
            let artist_id: i32 = plan.artist_ids[next];
            (
                TrackInsertion::Linking { plan, track_id, next },
                Progress::Request(
                    DbRequest::LinkTrackArtist { track_id, artist_id, artist_order: 0 },
                ),
            )
        } else {
            match plan.album {
                Some((album_id, Some(track_number))) => (
                    TrackInsertion::AwaitAlbumLink { track_id },
                    Progress::Request(
                        DbRequest::LinkAlbumTrack { album_id, track_id, track_number },
                    ),
                ),
                Some((_, None)) => (
                    TrackInsertion::Finished,
                    Progress::Finished(Err(DbError::MissingTrackNumber)),
                ),
                None => (TrackInsertion::AwaitCommit { track_id }, Progress::Request(DbRequest::Commit)),
            }
        }
    }

    /// Feeds the reply to the last request.
    pub fn step(self, reply: DbReply) -> (res: (TrackInsertion, Progress<i32>))
        ensures
            (res.0@, res.1@) == track_step(self@, reply),
    {
        match (self, reply) {
            (TrackInsertion::AwaitFind { plan }, DbReply::Found(Some(id))) => (
                TrackInsertion::Finished,
                Progress::Finished(Ok(id)),
            ),
            (TrackInsertion::AwaitFind { plan }, DbReply::Found(None)) => (
                TrackInsertion::AwaitBegin { plan },
                Progress::Request(DbRequest::Begin),
            ),
            (TrackInsertion::AwaitBegin { plan }, DbReply::Executed) => {
                let slug = slugify(plan.title.as_str());
                let request = DbRequest::InsertTrack {
                    title: plan.title.clone(),
                    slug,
                    length: plan.length,
                };
                (TrackInsertion::AwaitInsert { plan }, Progress::Request(request))
            },
            (TrackInsertion::AwaitInsert { plan }, DbReply::Created(track_id)) =>
                Self::link_from(plan, track_id, 0),
            (TrackInsertion::Linking { plan, track_id, next }, DbReply::Executed) => {
                if next < plan.artist_ids.len() {
                    Self::link_from(plan, track_id, next + 1)
                } else {
                    Self::link_from(plan, track_id, next)
                }
            },
            (TrackInsertion::AwaitAlbumLink { track_id }, DbReply::Executed) => (
                TrackInsertion::AwaitCommit { track_id },
                Progress::Request(DbRequest::Commit),
            ),
            (TrackInsertion::AwaitCommit { track_id }, DbReply::Executed) => (
                TrackInsertion::Finished,
                Progress::Finished(Ok(track_id)),
            ),
            _ => (TrackInsertion::Finished, Progress::Finished(Err(DbError::UnexpectedReply))),
        }
    }
}

/// The requests issued and the outcome reached when `m` is fed `replies`
/// one after the other, up to the reply that finishes it.
pub open spec fn track_run(m: TrackInsertionModel, replies: Seq<DbReply>) -> (
    Seq<RequestModel>,
    Option<Result<i32, DbError>>,
)
    decreases replies.len(),
{
    if replies.len() == 0 {
        (Seq::empty(), None)
    } else {
        let (next, p) = track_step(m, replies[0]);
        match p {
            ProgressModel::Request(r) => {
                let (rest, outcome) = track_run(next, replies.drop_first());
                (seq![r] + rest, outcome)
            },
            ProgressModel::Finished(outcome) => (Seq::empty(), Some(outcome)),
        }
    }
}

/// The requests issued, the first one included, and the outcome reached
/// when storing `t` is answered with `replies`.
pub open spec fn track_session(t: NewTrackModel, replies: Seq<DbReply>) -> (
    Seq<RequestModel>,
    Option<Result<i32, DbError>>,
) {
    let (m, p) = track_start(t);
    match p {
        ProgressModel::Request(first) => {
            let (rest, outcome) = track_run(m, replies);
            (seq![first] + rest, outcome)
        },
        ProgressModel::Finished(outcome) => (Seq::empty(), Some(outcome)),
    }
}

/// The credits of `artist_ids`, in order, on the track `track_id`.
pub open spec fn track_links(track_id: i32, artist_ids: Seq<i32>) -> Seq<RequestModel> {
    Seq::new(
        artist_ids.len(),
        |i: int|
            RequestModel::LinkTrackArtist { track_id, artist_id: artist_ids[i], artist_order: 0 },
    )
}

/// The placement of the new track `track_id` on the album of `t`, if any.
pub open spec fn track_album_links(track_id: i32, t: NewTrackModel) -> Seq<RequestModel> {
    match t.album_link() {
        Some((album_id, track_number)) => seq![
            RequestModel::LinkAlbumTrack { album_id, track_id, track_number },
        ],
        None => Seq::empty(),
    }
}

/// A track with no artist is refused before any request.
pub proof fn track_refuses_no_artists(t: NewTrackModel, replies: Seq<DbReply>)
    requires
        t.artist_ids.len() == 0,
    ensures
        track_session(t, replies) == (
            Seq::<RequestModel>::empty(),
            Some(Err::<i32, DbError>(DbError::NoArtists)),
        ),
{
}

/// A track that is already stored is reused: after its lookup finds it,
/// nothing is written and its id is the outcome.
pub proof fn track_reuses_existing(t: NewTrackModel, id: i32)
    requires
        t.artist_ids.len() > 0,
    ensures
        track_session(t, seq![DbReply::Found(Some(id))]) == (
            seq![RequestModel::FindTrack { title: t.title, artist_ids: t.artist_ids }],
            Some(Ok::<i32, DbError>(id)),
        ),
{
    reveal_with_fuel(track_run, 2);
    assert(seq![DbReply::Found(Some(id))].drop_first() =~= Seq::<DbReply>::empty());
    assert(seq![RequestModel::FindTrack { title: t.title, artist_ids: t.artist_ids }]
        + Seq::<RequestModel>::empty() =~= seq![
        RequestModel::FindTrack { title: t.title, artist_ids: t.artist_ids },
    ]);
}

proof fn track_links_from_lemma(t: NewTrackModel, track_id: i32, next: int)
    requires
        0 <= next <= t.artist_ids.len(),
        t.numbered_if_on_album(),
    ensures
        ({
            let tail = track_links(track_id, t.artist_ids).skip(next) + track_album_links(
                track_id,
                t,
            ) + seq![RequestModel::Commit];
            let (m, p) = track_link_from(track_plan(t), track_id, next);
            &&& p == ProgressModel::<i32>::Request(tail[0])
            &&& track_run(m, executed_replies((tail.len() - 1 + 1) as nat)) == (
                tail.drop_first(),
                Some(Ok::<i32, DbError>(track_id)),
            )
        }),
    decreases t.artist_ids.len() - next,
{
    let album = track_album_links(track_id, t);
    let tail = track_links(track_id, t.artist_ids).skip(next) + album + seq![RequestModel::Commit];
    let replies = executed_replies(tail.len());
    let (m, p) = track_link_from(track_plan(t), track_id, next);
    reveal_with_fuel(track_run, 3);
    if next == t.artist_ids.len() {
        assert(track_links(track_id, t.artist_ids).skip(next) =~= Seq::<RequestModel>::empty());
        match t.album_link() {
            Some((album_id, track_number)) => {
                assert(tail =~= seq![
                    RequestModel::LinkAlbumTrack { album_id, track_id, track_number },
                    RequestModel::Commit,
                ]);
                assert(replies.drop_first() =~= seq![DbReply::Executed]);
                assert(replies.drop_first().drop_first() =~= Seq::<DbReply>::empty());
                assert(tail.drop_first() =~= seq![RequestModel::Commit]);
                assert(seq![RequestModel::Commit] + Seq::<RequestModel>::empty() =~= seq![
                    RequestModel::Commit,
                ]);
            },
            None => {
                assert(tail =~= seq![RequestModel::Commit]);
                assert(replies.drop_first() =~= Seq::<DbReply>::empty());
                assert(tail.drop_first() =~= Seq::<RequestModel>::empty());
            },
        }
    } else {
        track_links_from_lemma(t, track_id, next + 1);
        let tail2 = track_links(track_id, t.artist_ids).skip(next + 1) + album + seq![
            RequestModel::Commit,
        ];
        assert(tail.drop_first() =~= tail2);
        assert(replies.drop_first() =~= executed_replies((tail2.len() - 1 + 1) as nat));
        assert(tail2 =~= seq![tail2[0]] + tail2.drop_first());
    }
}

/// A missing track is stored inside a transaction: it is inserted under the
/// slug of its title with its length, every artist is credited in order at
/// position 0, the track is placed on its album when it has one, the
/// transaction is committed, and the new id is the outcome.
pub proof fn track_creates_missing(t: NewTrackModel, track_id: i32)
    requires
        t.artist_ids.len() > 0,
        t.numbered_if_on_album(),
    ensures
        ({
            let writes = track_links(track_id, t.artist_ids) + track_album_links(track_id, t);
            track_session(
                t,
                seq![DbReply::Found(None), DbReply::Executed, DbReply::Created(track_id)]
                    + executed_replies((writes.len() + 1) as nat),
            ) == (
                seq![
                    RequestModel::FindTrack { title: t.title, artist_ids: t.artist_ids },
                    RequestModel::Begin,
                    RequestModel::InsertTrack {
                        title: t.title,
                        slug: slugify_result(t.title),
                        length: t.length,
                    },
                ] + writes + seq![RequestModel::Commit],
                Some(Ok::<i32, DbError>(track_id)),
            )
        }),
{
    let writes = track_links(track_id, t.artist_ids) + track_album_links(track_id, t);
    let links = executed_replies((writes.len() + 1) as nat);
    let replies = seq![DbReply::Found(None), DbReply::Executed, DbReply::Created(track_id)] + links;
    track_links_from_lemma(t, track_id, 0);
    let tail = track_links(track_id, t.artist_ids).skip(0) + track_album_links(track_id, t) + seq![
        RequestModel::Commit,
    ];
    assert(track_links(track_id, t.artist_ids).skip(0) =~= track_links(track_id, t.artist_ids));
    assert(tail =~= writes + seq![RequestModel::Commit]);
    let plan = track_plan(t);
    let m0 = TrackInsertionModel::AwaitFind { plan };
    let m1 = TrackInsertionModel::AwaitBegin { plan };
    let m2 = TrackInsertionModel::AwaitInsert { plan };
    assert(replies.drop_first() =~= seq![DbReply::Executed, DbReply::Created(track_id)] + links);
    assert(replies.drop_first().drop_first() =~= seq![DbReply::Created(track_id)] + links);
    assert(replies.drop_first().drop_first().drop_first() =~= links);
    assert(executed_replies((tail.len() - 1 + 1) as nat) =~= links);
    assert(track_run(m2, seq![DbReply::Created(track_id)] + links) == (
        seq![tail[0]] + tail.drop_first(),
        Some(Ok::<i32, DbError>(track_id)),
    ));
    assert(seq![tail[0]] + tail.drop_first() =~= tail);
    let insert = RequestModel::InsertTrack {
        title: t.title,
        slug: slugify_result(t.title),
        length: t.length,
    };
    assert(track_run(m1, seq![DbReply::Executed, DbReply::Created(track_id)] + links).0 =~= seq![
        insert,
    ] + tail);
    assert(track_run(m0, replies).0 =~= seq![RequestModel::Begin, insert] + tail);
}

} // verus!
