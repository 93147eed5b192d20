//! The machine-facing API.

pub mod compat;
