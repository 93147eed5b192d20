//! Endpoints compatible with other scrobbling servers.

pub mod maloja;
