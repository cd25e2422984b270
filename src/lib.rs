//! Keeps DNS address records in step with the host's public addresses:
//! matching configured names to zones and records, planning the create,
//! update and delete requests that bring the provider in line, and folding
//! the outcomes of those requests.

pub mod api;
pub mod clone;
pub mod dns;
pub mod error;
pub mod ip;
pub mod laws;
pub mod matcher;
pub mod model;
pub mod names;
pub mod plan;
pub mod rerun;
pub mod run;
pub mod text;
