//! Storing an artist: reuse the row of that name, or insert one.

use vstd::prelude::*;

use crate::db::{
    slugify, slugify_result, DbError, DbReply, DbRequest, Progress, ProgressModel, RequestModel,
};

verus! {

/// The find-or-insert of one artist by name.
pub enum ArtistInsertion {
    /// The lookup of `name` was issued.
    AwaitFind { name: String },
    /// The insert of `name` was issued.
    AwaitInsert { name: String },
    /// The operation is over.
    Finished,
}

/// The mathematical content of an [`ArtistInsertion`].
pub enum ArtistInsertionModel {
    AwaitFind { name: Seq<char> },
    AwaitInsert { name: Seq<char> },
    Finished,
}

impl View for ArtistInsertion {
    type V = ArtistInsertionModel;

    open spec fn view(&self) -> ArtistInsertionModel {
        match self {
            ArtistInsertion::AwaitFind { name } => ArtistInsertionModel::AwaitFind { name: name@ },
            ArtistInsertion::AwaitInsert { name } => ArtistInsertionModel::AwaitInsert {
                name: name@,
            },
            ArtistInsertion::Finished => ArtistInsertionModel::Finished,
        }
    }
}

/// Starting: the artist is looked up by name.
pub open spec fn artist_start(name: Seq<char>) -> (ArtistInsertionModel, RequestModel) {
    (ArtistInsertionModel::AwaitFind { name }, RequestModel::FindArtist { name })
}

/// One reply: a found artist is reused, a missing one is inserted under the
/// slug of its name, and the inserted id is the outcome.
pub open spec fn artist_step(m: ArtistInsertionModel, reply: DbReply) -> (
    ArtistInsertionModel,
    ProgressModel<i32>,
) {
    match (m, reply) {
        (ArtistInsertionModel::AwaitFind { name }, DbReply::Found(Some(id))) => (
            ArtistInsertionModel::Finished,
            ProgressModel::Finished(Ok(id)),
        ),
        (ArtistInsertionModel::AwaitFind { name }, DbReply::Found(None)) => (
            ArtistInsertionModel::AwaitInsert { name },
            ProgressModel::Request(
                RequestModel::InsertArtist { name, slug: slugify_result(name) },
            ),
        ),
        (ArtistInsertionModel::AwaitInsert { name }, DbReply::Created(id)) => (
            ArtistInsertionModel::Finished,
            ProgressModel::Finished(Ok(id)),
        ),
        _ => (ArtistInsertionModel::Finished, ProgressModel::Finished(Err(DbError::UnexpectedReply))),
    }
}

impl ArtistInsertion {
    /// Starts storing the artist `name`.
    pub fn insert_artist(name: &str) -> (res: (ArtistInsertion, DbRequest))
        ensures
            (res.0@, res.1@) == artist_start(name@),
    {
        let owned = name.to_owned();
        let request = DbRequest::FindArtist { name: name.to_owned() };
        (ArtistInsertion::AwaitFind { name: owned }, request)
    }

    /// Feeds the reply to the last request.
    pub fn step(self, reply: DbReply) -> (res: (ArtistInsertion, Progress<i32>))
        ensures
            (res.0@, res.1@) == artist_step(self@, reply),
    {
        match (self, reply) {
            (ArtistInsertion::AwaitFind { name }, DbReply::Found(Some(id))) => (
                ArtistInsertion::Finished,
                Progress::Finished(Ok(id)),
            ),
            (ArtistInsertion::AwaitFind { name }, DbReply::Found(None)) => {
                let slug = slugify(name.as_str());
                let request = DbRequest::InsertArtist { name: name.clone(), slug };
                (ArtistInsertion::AwaitInsert { name }, Progress::Request(request))
            },
            (ArtistInsertion::AwaitInsert { name }, DbReply::Created(id)) => (
                ArtistInsertion::Finished,
                Progress::Finished(Ok(id)),
            ),
            _ => (ArtistInsertion::Finished, Progress::Finished(Err(DbError::UnexpectedReply))),
        }
    }
}

/// The requests issued and the outcome reached when `m` is fed `replies`
/// one after the other, up to the reply that finishes it.
pub open spec fn artist_run(m: ArtistInsertionModel, replies: Seq<DbReply>) -> (
    Seq<RequestModel>,
    Option<Result<i32, DbError>>,
)
    decreases replies.len(),
{
    if replies.len() == 0 {
        (Seq::empty(), None)
    } else {
        let (next, p) = artist_step(m, replies[0]);
        match p {
            ProgressModel::Request(r) => {
                let (rest, outcome) = artist_run(next, replies.drop_first());
                (seq![r] + rest, outcome)
            },
            ProgressModel::Finished(outcome) => (Seq::empty(), Some(outcome)),
        }
    }
}

/// The requests issued, the first one included, and the outcome reached
/// when storing `name` is answered with `replies`.
pub open spec fn artist_session(name: Seq<char>, replies: Seq<DbReply>) -> (
    Seq<RequestModel>,
    Option<Result<i32, DbError>>,
) {
    let (m, first) = artist_start(name);
    let (rest, outcome) = artist_run(m, replies);
    (seq![first] + rest, outcome)
}

/// An artist that is already stored is reused: after its lookup finds it,
/// nothing is inserted and its id is the outcome.
pub proof fn artist_reuses_existing(name: Seq<char>, id: i32)
    ensures
        artist_session(name, seq![DbReply::Found(Some(id))]) == (
            seq![RequestModel::FindArtist { name }],
            Some(Ok::<i32, DbError>(id)),
        ),
{
    let replies = seq![DbReply::Found(Some(id))];
    reveal_with_fuel(artist_run, 2);
    assert(replies.drop_first() =~= Seq::<DbReply>::empty());
    assert(seq![RequestModel::FindArtist { name }] + Seq::<RequestModel>::empty() =~= seq![
        RequestModel::FindArtist { name },
    ]);
}

/// A missing artist is inserted once, under the slug of its name, and the
/// new id is the outcome.
pub proof fn artist_creates_missing(name: Seq<char>, id: i32)
    ensures
        artist_session(name, seq![DbReply::Found(None), DbReply::Created(id)]) == (
            seq![
                RequestModel::FindArtist { name },
                RequestModel::InsertArtist { name, slug: slugify_result(name) },
            ],
            Some(Ok::<i32, DbError>(id)),
        ),
{
    let replies = seq![DbReply::Found(None), DbReply::Created(id)];
    reveal_with_fuel(artist_run, 3);
    assert(replies.drop_first() =~= seq![DbReply::Created(id)]);
    assert(replies.drop_first().drop_first() =~= Seq::<DbReply>::empty());
    let (m1, p1) = artist_step(artist_start(name).0, DbReply::Found(None));
    assert(artist_run(m1, seq![DbReply::Created(id)]).0 =~= Seq::<RequestModel>::empty());
    assert(seq![RequestModel::FindArtist { name }] + (seq![
        RequestModel::InsertArtist { name, slug: slugify_result(name) },
    ] + Seq::<RequestModel>::empty()) =~= seq![
        RequestModel::FindArtist { name },
        RequestModel::InsertArtist { name, slug: slugify_result(name) },
    ]);
}

} // verus!
