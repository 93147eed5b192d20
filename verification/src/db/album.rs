//! Storing an album: reuse the album with this title and exactly these
//! artists, or insert it and credit every artist, inside a transaction.

use vstd::prelude::*;

use crate::db::{
    slugify, slugify_result, DbError, DbReply, DbRequest, Progress, ProgressModel, RequestModel, executed_replies,
};

verus! {

/// An album lookup or insertion was asked for with no artist.
#[derive(Clone, Copy, Debug, Default, PartialEq, Eq, Structural)]
pub struct NoArtistsError;

/// The lookup of an album by title and artist set, refused for an empty set.
pub open spec fn find_album_request(title: Seq<char>, artists: Seq<i32>) -> Result<
    RequestModel,
    NoArtistsError,
> {
    if artists.len() == 0 {
        Err(NoArtistsError)
    } else {
        Ok(RequestModel::FindAlbum { title, artist_ids: artists })
    }
}

/// The request that looks up the album `title` credited to exactly `artists`;
/// refused when `artists` is empty.
pub fn find_album(title: &str, artists: &[i32]) -> (res: Result<DbRequest, NoArtistsError>)
    ensures
        res is Ok <==> find_album_request(title@, artists@) is Ok,
        res matches Ok(r) ==> find_album_request(title@, artists@) == Ok::<
            RequestModel,
            NoArtistsError,
        >(r@),
        res matches Err(e) ==> find_album_request(title@, artists@) == Err::<
            RequestModel,
            NoArtistsError,
        >(e),
{
    if artists.len() == 0 {
        return Err(NoArtistsError);
    }
    Ok(DbRequest::FindAlbum { title: title.to_owned(), artist_ids: vstd::slice::slice_to_vec(artists) })
}

/// The find-or-insert of one album.
pub enum AlbumInsertion {
    /// The lookup was issued.
    AwaitFind { title: String, artist_ids: Vec<i32> },
    /// The transaction was opened.
    AwaitBegin { title: String, artist_ids: Vec<i32> },
    /// The insert of the album was issued.
    AwaitInsert { title: String, artist_ids: Vec<i32> },
    /// The credit of `artist_ids[next]` on the new album was issued.
    Linking { album_id: i32, artist_ids: Vec<i32>, next: usize },
    /// The commit was issued.
    AwaitCommit { album_id: i32 },
    /// The operation is over.
    Finished,
}

/// The mathematical content of an [`AlbumInsertion`].
pub enum AlbumInsertionModel {
    AwaitFind { title: Seq<char>, artist_ids: Seq<i32> },
    AwaitBegin { title: Seq<char>, artist_ids: Seq<i32> },
    AwaitInsert { title: Seq<char>, artist_ids: Seq<i32> },
    Linking { album_id: i32, artist_ids: Seq<i32>, next: int },
    AwaitCommit { album_id: i32 },
    Finished,
}

impl View for AlbumInsertion {
    type V = AlbumInsertionModel;

    open spec fn view(&self) -> AlbumInsertionModel {
        match self {
            AlbumInsertion::AwaitFind { title, artist_ids } => AlbumInsertionModel::AwaitFind {
                title: title@,
                artist_ids: artist_ids@,
            },
            AlbumInsertion::AwaitBegin { title, artist_ids } => AlbumInsertionModel::AwaitBegin {
                title: title@,
                artist_ids: artist_ids@,
            },
            AlbumInsertion::AwaitInsert { title, artist_ids } =>
                AlbumInsertionModel::AwaitInsert { title: title@, artist_ids: artist_ids@ },
            AlbumInsertion::Linking { album_id, artist_ids, next } => AlbumInsertionModel::Linking {
                album_id: *album_id,
                artist_ids: artist_ids@,
                next: *next as int,
            },
            AlbumInsertion::AwaitCommit { album_id } => AlbumInsertionModel::AwaitCommit {
                album_id: *album_id,
            },
            AlbumInsertion::Finished => AlbumInsertionModel::Finished,
        }
    }
}

/// Starting: an album with no artist is refused at once; otherwise it is
/// looked up.
pub open spec fn album_start(title: Seq<char>, artist_ids: Seq<i32>) -> (
    AlbumInsertionModel,
    ProgressModel<i32>,
) {
    if artist_ids.len() == 0 {
        (AlbumInsertionModel::Finished, ProgressModel::Finished(Err(DbError::NoArtists)))
    } else {
        (
            AlbumInsertionModel::AwaitFind { title, artist_ids },
            ProgressModel::Request(RequestModel::FindAlbum { title, artist_ids }),
        )
    }
}

/// Credits `artist_ids[next]`, or commits once every artist is credited.
pub open spec fn album_link_from(album_id: i32, artist_ids: Seq<i32>, next: int) -> (
    AlbumInsertionModel,
    ProgressModel<i32>,
) {
    if 0 <= next < artist_ids.len() {
        (
            AlbumInsertionModel::Linking { album_id, artist_ids, next },
            ProgressModel::Request(
                RequestModel::LinkAlbumArtist {
                    album_id,
                    artist_id: artist_ids[next],
                    artist_order: 0,
                },
            ),
        )
    } else {
        (AlbumInsertionModel::AwaitCommit { album_id }, ProgressModel::Request(RequestModel::Commit))
    }
}

/// One reply: a found album is reused; otherwise a transaction is opened,
/// the album inserted under the slug of its title, each artist credited in
/// order with position 0, the transaction committed, and the new id is the
/// outcome.
pub open spec fn album_step(m: AlbumInsertionModel, reply: DbReply) -> (
    AlbumInsertionModel,
    ProgressModel<i32>,
) {
    match (m, reply) {
        (AlbumInsertionModel::AwaitFind { title, artist_ids }, DbReply::Found(Some(id))) => (
            AlbumInsertionModel::Finished,
            ProgressModel::Finished(Ok(id)),
        ),
        (AlbumInsertionModel::AwaitFind { title, artist_ids }, DbReply::Found(None)) => (
            AlbumInsertionModel::AwaitBegin { title, artist_ids },
            ProgressModel::Request(RequestModel::Begin),
        ),
        (AlbumInsertionModel::AwaitBegin { title, artist_ids }, DbReply::Executed) => (
            AlbumInsertionModel::AwaitInsert { title, artist_ids },
            ProgressModel::Request(RequestModel::InsertAlbum { title, slug: slugify_result(title) }),
        ),
        (AlbumInsertionModel::AwaitInsert { title, artist_ids }, DbReply::Created(album_id)) =>
            album_link_from(album_id, artist_ids, 0),
        (AlbumInsertionModel::Linking { album_id, artist_ids, next }, DbReply::Executed) =>
            album_link_from(album_id, artist_ids, next + 1),
        (AlbumInsertionModel::AwaitCommit { album_id }, DbReply::Executed) => (
            AlbumInsertionModel::Finished,
            ProgressModel::Finished(Ok(album_id)),
        ),
        _ => (AlbumInsertionModel::Finished, ProgressModel::Finished(Err(DbError::UnexpectedReply))),
    }
}

impl AlbumInsertion {
    /// Starts storing the album `title` credited to `artist_ids`.
    pub fn insert_album(title: &str, artist_ids: &[i32]) -> (res: (AlbumInsertion, Progress<i32>))
        ensures
            (res.0@, res.1@) == album_start(title@, artist_ids@),
    {
        match find_album(title, artist_ids) {
            Err(_) => (AlbumInsertion::Finished, Progress::Finished(Err(DbError::NoArtists))),
            Ok(request) => (
                AlbumInsertion::AwaitFind {
                    title: title.to_owned(),
                    artist_ids: vstd::slice::slice_to_vec(artist_ids),
                },
                Progress::Request(request),
            ),
        }
    }

    fn link_from(album_id: i32, artist_ids: Vec<i32>, next: usize) -> (res: (
        AlbumInsertion,
        Progress<i32>,
    ))
        ensures
            (res.0@, res.1@) == album_link_from(album_id, artist_ids@, next as int),
    {
        if next < artist_ids.len() {
            let artist_id: i32 = artist_ids[next];
            (
                AlbumInsertion::Linking { album_id, artist_ids, next },
                Progress::Request(
                    DbRequest::LinkAlbumArtist { album_id, artist_id, artist_order: 0 },
                ),
            )
        } else {
            (AlbumInsertion::AwaitCommit { album_id }, Progress::Request(DbRequest::Commit))
        }
    }

    /// Feeds the reply to the last request.
    pub fn step(self, reply: DbReply) -> (res: (AlbumInsertion, Progress<i32>))
        ensures
            (res.0@, res.1@) == album_step(self@, reply),
    {
        match (self, reply) {
            (AlbumInsertion::AwaitFind { title, artist_ids }, DbReply::Found(Some(id))) => (
                AlbumInsertion::Finished,
                Progress::Finished(Ok(id)),
            ),
            (AlbumInsertion::AwaitFind { title, artist_ids }, DbReply::Found(None)) => (
                AlbumInsertion::AwaitBegin { title, artist_ids },
                Progress::Request(DbRequest::Begin),
            ),
            (AlbumInsertion::AwaitBegin { title, artist_ids }, DbReply::Executed) => {
                let slug = slugify(title.as_str());
                let request = DbRequest::InsertAlbum { title: title.clone(), slug };
                (AlbumInsertion::AwaitInsert { title, artist_ids }, Progress::Request(request))
            },
            (AlbumInsertion::AwaitInsert { title, artist_ids }, DbReply::Created(album_id)) =>
                Self::link_from(album_id, artist_ids, 0),
            (AlbumInsertion::Linking { album_id, artist_ids, next }, DbReply::Executed) => {
                if next < artist_ids.len() {
                    Self::link_from(album_id, artist_ids, next + 1)
                } else {
                    Self::link_from(album_id, artist_ids, next)
                }
            },
            (AlbumInsertion::AwaitCommit { album_id }, DbReply::Executed) => (
                AlbumInsertion::Finished,
                Progress::Finished(Ok(album_id)),
            ),
            _ => (AlbumInsertion::Finished, Progress::Finished(Err(DbError::UnexpectedReply))),
        }
    }
}

/// The requests issued and the outcome reached when `m` is fed `replies`
/// one after the other, up to the reply that finishes it.
pub open spec fn album_run(m: AlbumInsertionModel, replies: Seq<DbReply>) -> (
    Seq<RequestModel>,
    Option<Result<i32, DbError>>,
)
    decreases replies.len(),
{
    if replies.len() == 0 {
        (Seq::empty(), None)
    } else {
        let (next, p) = album_step(m, replies[0]);
        match p {
            ProgressModel::Request(r) => {
                let (rest, outcome) = album_run(next, replies.drop_first());
                (seq![r] + rest, outcome)
            },
            ProgressModel::Finished(outcome) => (Seq::empty(), Some(outcome)),
        }
    }
}

/// The requests issued, the first one included, and the outcome reached
/// when storing the album `title` of `artist_ids` is answered with `replies`.
pub open spec fn album_session(title: Seq<char>, artist_ids: Seq<i32>, replies: Seq<DbReply>) -> (
    Seq<RequestModel>,
    Option<Result<i32, DbError>>,
) {
    let (m, p) = album_start(title, artist_ids);
    match p {
        ProgressModel::Request(first) => {
            let (rest, outcome) = album_run(m, replies);
            (seq![first] + rest, outcome)
        },
        ProgressModel::Finished(outcome) => (Seq::empty(), Some(outcome)),
    }
}

/// The credits of `artist_ids`, in order, on the album `album_id`.
pub open spec fn album_links(album_id: i32, artist_ids: Seq<i32>) -> Seq<RequestModel> {
    Seq::new(
        artist_ids.len(),
        |i: int|
            RequestModel::LinkAlbumArtist { album_id, artist_id: artist_ids[i], artist_order: 0 },
    )
}

/// An album with no artist is refused before any request.
pub proof fn album_refuses_no_artists(title: Seq<char>, replies: Seq<DbReply>)
    ensures
        album_session(title, Seq::empty(), replies) == (
            Seq::<RequestModel>::empty(),
            Some(Err::<i32, DbError>(DbError::NoArtists)),
        ),
{
}

/// An album that is already stored is reused: after its lookup finds it,
/// nothing is written and its id is the outcome.
pub proof fn album_reuses_existing(title: Seq<char>, artist_ids: Seq<i32>, id: i32)
    requires
        artist_ids.len() > 0,
    ensures
        album_session(title, artist_ids, seq![DbReply::Found(Some(id))]) == (
            seq![RequestModel::FindAlbum { title, artist_ids }],
            Some(Ok::<i32, DbError>(id)),
        ),
{
    reveal_with_fuel(album_run, 2);
    assert(seq![DbReply::Found(Some(id))].drop_first() =~= Seq::<DbReply>::empty());
    assert(seq![RequestModel::FindAlbum { title, artist_ids }] + Seq::<RequestModel>::empty()
        =~= seq![RequestModel::FindAlbum { title, artist_ids }]);
}

proof fn album_links_from_lemma(album_id: i32, artist_ids: Seq<i32>, next: int)
    requires
        0 <= next <= artist_ids.len(),
    ensures
        ({
            let tail = album_links(album_id, artist_ids).skip(next) + seq![RequestModel::Commit];
            let (m, p) = album_link_from(album_id, artist_ids, next);
            &&& p == ProgressModel::<i32>::Request(tail[0])
            &&& album_run(m, executed_replies((artist_ids.len() - next + 1) as nat)) == (
                tail.drop_first(),
                Some(Ok::<i32, DbError>(album_id)),
            )
        }),
    decreases artist_ids.len() - next,
{
    let tail = album_links(album_id, artist_ids).skip(next) + seq![RequestModel::Commit];
    let replies = executed_replies((artist_ids.len() - next + 1) as nat);
    let (m, p) = album_link_from(album_id, artist_ids, next);
    reveal_with_fuel(album_run, 2);
    if next == artist_ids.len() {
        assert(tail =~= seq![RequestModel::Commit]);
        assert(replies.drop_first() =~= Seq::<DbReply>::empty());
        assert(tail.drop_first() =~= Seq::<RequestModel>::empty());
    } else {
        album_links_from_lemma(album_id, artist_ids, next + 1);
        let tail2 = album_links(album_id, artist_ids).skip(next + 1) + seq![RequestModel::Commit];
        assert(replies.drop_first() =~= executed_replies((artist_ids.len() - (next + 1) + 1) as nat));
        assert(tail.drop_first() =~= tail2);
        assert(tail2 =~= seq![tail2[0]] + tail2.drop_first());
    }
}

/// A missing album is stored inside a transaction: it is inserted under the
/// slug of its title, every artist is credited in order at position 0, the
/// transaction is committed, and the new id is the outcome.
pub proof fn album_creates_missing(title: Seq<char>, artist_ids: Seq<i32>, album_id: i32)
    requires
        artist_ids.len() > 0,
    ensures
        album_session(
            title,
            artist_ids,
            seq![DbReply::Found(None), DbReply::Executed, DbReply::Created(album_id)]
                + executed_replies((artist_ids.len() + 1) as nat),
        ) == (
            seq![
                RequestModel::FindAlbum { title, artist_ids },
                RequestModel::Begin,
                RequestModel::InsertAlbum { title, slug: slugify_result(title) },
            ] + album_links(album_id, artist_ids) + seq![RequestModel::Commit],
            Some(Ok::<i32, DbError>(album_id)),
        ),
{
    let links = executed_replies((artist_ids.len() + 1) as nat);
    let replies = seq![DbReply::Found(None), DbReply::Executed, DbReply::Created(album_id)] + links;
    album_links_from_lemma(album_id, artist_ids, 0);
    let tail = album_links(album_id, artist_ids).skip(0) + seq![RequestModel::Commit];
    assert(album_links(album_id, artist_ids).skip(0) =~= album_links(album_id, artist_ids));
    let m0 = AlbumInsertionModel::AwaitFind { title, artist_ids };
    let m1 = AlbumInsertionModel::AwaitBegin { title, artist_ids };
    let m2 = AlbumInsertionModel::AwaitInsert { title, artist_ids };
    let (m3, p3) = album_link_from(album_id, artist_ids, 0);
    assert(replies.drop_first() =~= seq![DbReply::Executed, DbReply::Created(album_id)] + links);
    assert(replies.drop_first().drop_first() =~= seq![DbReply::Created(album_id)] + links);
    assert(replies.drop_first().drop_first().drop_first() =~= links);
    assert(executed_replies((artist_ids.len() - 0 + 1) as nat) =~= links);
    assert(album_run(m2, seq![DbReply::Created(album_id)] + links) == (
        seq![tail[0]] + tail.drop_first(),
        Some(Ok::<i32, DbError>(album_id)),
    ));
    assert(seq![tail[0]] + tail.drop_first() =~= tail);
    assert(album_run(m1, seq![DbReply::Executed, DbReply::Created(album_id)] + links).0 =~= seq![
        RequestModel::InsertAlbum { title, slug: slugify_result(title) },
    ] + tail);
    assert(album_run(m0, replies).0 =~= seq![
        RequestModel::Begin,
        RequestModel::InsertAlbum { title, slug: slugify_result(title) },
    ] + tail);
}

} // verus!
