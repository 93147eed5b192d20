//! Scrobble bookkeeping for a small music-listening tracker: the decisions
//! behind storing scrobbles, artists, albums and tracks, the handling of
//! Maloja-compatible submissions, and the parsing of artist credits.

pub mod db;
pub mod extractor;
pub mod routes;
pub mod maloja;
pub mod parser;
