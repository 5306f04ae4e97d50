//! The verified core of a crawler and feature extractor for match data of a competitive game.
//!
//! The library decides and computes; it never reads a clock, sleeps, touches the network or
//! the disk. Its callers do that and hand it plain values:
//!
//! - [`rate_limiter`] admits requests through a one-second and a two-minute window.
//! - [`riot_api`] names the requests of the upstream API, takes their answers and decodes
//!   their bodies.
//! - [`kraken`] is the crawl: a machine that is stepped with the answer to what it asked for.
//! - [`parquet_extract`] and [`tables`] turn match documents into the player table and the
//!   team table.
//! - [`player_profile`] and [`kraken_prepare_ml`] build recent-form profiles and the training
//!   tables.
//! - [`kraken_summary`], [`stats`] and [`sniff`] hold the smaller jobs.
//! - [`json`], [`text`], [`paths`] and [`error`] are what the others stand on.

pub mod error;
pub mod json;
pub mod kraken;
pub mod kraken_prepare_ml;
pub mod kraken_summary;
pub mod parquet_extract;
pub mod paths;
pub mod player_profile;
pub mod rate_limiter;
pub mod riot_api;
pub mod sniff;
pub mod stats;
pub mod tables;
pub mod text;
