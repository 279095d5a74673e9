//! Verified core of an OwnTracks location recorder.

pub mod text;
pub mod number;
pub mod owntracks;
pub mod clock;
pub mod json;
pub mod message;
pub mod import;
pub mod storage;
pub mod api;
pub mod gpx;
pub mod config;
pub mod humanize;
pub mod mqtt;
