//! The storage protocol. Each storing operation is a state machine: it is
//! started with its input, answers every reply of the database with the next
//! request to run, and eventually finishes with an outcome. Whoever owns the
//! connection runs the requests and feeds the replies back.

use vstd::prelude::*;

pub mod album;
pub mod artist;
pub mod tables;
pub mod scrobble;
pub mod scrobble_rows;
pub mod track;

verus! {

/// A statement that a storing operation asks the database to run.
#[allow(inconsistent_fields)]
#[derive(Clone, Debug, PartialEq, Eq)]
pub enum DbRequest {
    /// Open a transaction (nested ones become savepoints).
    Begin,
    /// Commit the innermost open transaction.
    Commit,
    /// Look up an artist by exact name.
    FindArtist { name: String },
    /// Insert an artist and return its id.
    InsertArtist { name: String, slug: String },
    /// Look up an album by title and exact set of artists.
    FindAlbum { title: String, artist_ids: Vec<i32> },
    /// Insert an album and return its id.
    InsertAlbum { title: String, slug: String },
    /// Credit an artist on an album.
    LinkAlbumArtist { album_id: i32, artist_id: i32, artist_order: i32 },
    /// Look up a track by title and exact set of artists.
    FindTrack { title: String, artist_ids: Vec<i32> },
    /// Insert a track and return its id.
    InsertTrack { title: String, slug: String, length: Option<i32> },
    /// Credit an artist on a track.
    LinkTrackArtist { track_id: i32, artist_id: i32, artist_order: i32 },
    /// Place a track on an album.
    LinkAlbumTrack { album_id: i32, track_id: i32, track_number: i32 },
    /// Record one listen of a track, stamped by the database clock.
    InsertScrobble { track_id: i32, album_id: Option<i32> },
}

/// The mathematical content of a [`DbRequest`].
#[allow(inconsistent_fields)]
pub enum RequestModel {
    Begin,
    Commit,
    FindArtist { name: Seq<char> },
    InsertArtist { name: Seq<char>, slug: Seq<char> },
    FindAlbum { title: Seq<char>, artist_ids: Seq<i32> },
    InsertAlbum { title: Seq<char>, slug: Seq<char> },
    LinkAlbumArtist { album_id: i32, artist_id: i32, artist_order: i32 },
    FindTrack { title: Seq<char>, artist_ids: Seq<i32> },
    InsertTrack { title: Seq<char>, slug: Seq<char>, length: Option<i32> },
    LinkTrackArtist { track_id: i32, artist_id: i32, artist_order: i32 },
    LinkAlbumTrack { album_id: i32, track_id: i32, track_number: i32 },
    InsertScrobble { track_id: i32, album_id: Option<i32> },
}

impl View for DbRequest {
    type V = RequestModel;

    open spec fn view(&self) -> RequestModel {
        match self {
            DbRequest::Begin => RequestModel::Begin,
            DbRequest::Commit => RequestModel::Commit,
            DbRequest::FindArtist { name } => RequestModel::FindArtist { name: name@ },
            DbRequest::InsertArtist { name, slug } => RequestModel::InsertArtist {
                name: name@,
                slug: slug@,
            },
            DbRequest::FindAlbum { title, artist_ids } => RequestModel::FindAlbum {
                title: title@,
                artist_ids: artist_ids@,
            },
            DbRequest::InsertAlbum { title, slug } => RequestModel::InsertAlbum {
                title: title@,
                slug: slug@,
            },
            DbRequest::LinkAlbumArtist { album_id, artist_id, artist_order } =>
                RequestModel::LinkAlbumArtist {
                album_id: *album_id,
                artist_id: *artist_id,
                artist_order: *artist_order,
            },
            DbRequest::FindTrack { title, artist_ids } => RequestModel::FindTrack {
                title: title@,
                artist_ids: artist_ids@,
            },
            DbRequest::InsertTrack { title, slug, length } => RequestModel::InsertTrack {
                title: title@,
                slug: slug@,
                length: *length,
            },
            DbRequest::LinkTrackArtist { track_id, artist_id, artist_order } =>
                RequestModel::LinkTrackArtist {
                track_id: *track_id,
                artist_id: *artist_id,
                artist_order: *artist_order,
            },
            DbRequest::LinkAlbumTrack { album_id, track_id, track_number } =>
                RequestModel::LinkAlbumTrack {
                album_id: *album_id,
                track_id: *track_id,
                track_number: *track_number,
            },
            DbRequest::InsertScrobble { track_id, album_id } => RequestModel::InsertScrobble {
                track_id: *track_id,
                album_id: *album_id,
            },
        }
    }
}

/// What the database answered to the last request.
#[derive(Clone, Copy, Debug, PartialEq, Eq, Structural)]
pub enum DbReply {
    /// The answer to a lookup: the id of the matching row, if any.
    Found(Option<i32>),
    /// The answer to an insert: the id of the new row.
    Created(i32),
    /// The answer to any other statement.
    Executed,
}

/// Why a storing operation gave up without a database error.
#[derive(Clone, Copy, Debug, PartialEq, Eq, Structural)]
pub enum DbError {
    /// An album or track was to be looked up or stored with no artist.
    NoArtists,
    /// The reply does not answer the request that was last issued, or the
    /// operation had already finished.
    UnexpectedReply,
    /// A track placed on an album was to be written without its position
    /// there.
    MissingTrackNumber,
}

/// What a storing operation wants next.
#[derive(Debug, PartialEq, Eq)]
pub enum Progress<T> {
    /// Run this request and report its reply.
    Request(DbRequest),
    /// The operation is over.
    Finished(Result<T, DbError>),
}

/// The mathematical content of a [`Progress`].
pub enum ProgressModel<T> {
    Request(RequestModel),
    Finished(Result<T, DbError>),
}

impl<T> View for Progress<T> {
    type V = ProgressModel<T>;

    open spec fn view(&self) -> ProgressModel<T> {
        match self {
            Progress::Request(r) => ProgressModel::Request(r@),
            Progress::Finished(o) => ProgressModel::Finished(*o),
        }
    }
}

/// `n` replies that report a statement run.
pub open spec fn executed_replies(n: nat) -> Seq<DbReply> {
    Seq::new(n, |i: int| DbReply::Executed)
}

/// What `slug::slugify` makes of a text.
pub uninterp spec fn slugify_result(text: Seq<char>) -> Seq<char>;

/// A slug: lower-case ASCII letters, digits and single dashes, never
/// starting or ending with a dash.
pub open spec fn is_slug(s: Seq<char>) -> bool {
    &&& forall|i: int|
        0 <= i < s.len() ==> ('a' <= #[trigger] s[i] <= 'z' || '0' <= s[i] <= '9' || s[i]
            == '-')
    &&& forall|i: int| 0 <= i < s.len() - 1 ==> !(#[trigger] s[i] == '-' && s[i + 1] == '-')
    &&& s.len() > 0 ==> s[0] != '-' && s[s.len() - 1] != '-'
}

/// Calls `slug::slugify`. Its result is named [`slugify_result`] of the
/// text; the crate documents that every result is a slug in the sense of
/// [`is_slug`]. Which slug a given text yields (transliteration of non-ASCII
/// letters) is left to the name.
#[verifier::external_body]
pub(crate) fn slugify(text: &str) -> (slug: String)
    ensures
        slug@ == slugify_result(text@),
        is_slug(slug@),
{
    slug::slugify(text)
}

} // verus!
