//! What the command line program decides: downloads, updates, requests and
//! profiles.
pub mod download;
pub mod self_update;
pub mod serve;
pub mod profile;
pub mod report;
