//! Core engine of an airing-anime tracker: it reconciles a rule cache of
//! compiled regular expressions, tags incoming RSS items with the first
//! matching rule, gates items per series by alias containment, publication
//! date and a sticky rule, derives torrent info-hashes, tracks per-season
//! progress out of record titles, and retires a series once its declared
//! episode count is reached.
//!
//! The engine itself is a sequential state machine ([`engine::Tasker`]);
//! network fetches, the torrent client and persistence are events that a
//! caller performs between steps and feeds back in.

pub mod config;
pub mod dates;
pub mod engine;
pub mod enrich;
pub mod infohash;
pub mod keys;
pub mod model;
pub mod progress;
pub mod result;
pub mod rules;
pub mod store;
pub mod strutil;
pub mod users;
