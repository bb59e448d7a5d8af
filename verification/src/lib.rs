//! A logbook of drone flights.
//!
//! Flight logs come in three formats: binary logs of the flight controller,
//! CSV files of the Litchi app and CSV files that this logbook exported.
//! The library turns them into telemetry of one shape, validates every
//! sample, derives the statistics and the tags of a flight, keeps flights
//! free of duplicates and serves stored telemetry within a bound.
//!
//! Measurements are scaled integers throughout; see [`models`]. Reading
//! files, decoding binary logs, measuring distances over ground and
//! keeping the store on disk are left to the program around the library,
//! which hands over plain values and takes plain values back.

pub mod backup;
pub mod csv;
pub mod database;
pub mod dedup;
pub mod downsample;
pub mod dronelogbook_parser;
pub mod equipment;
pub mod frames;
pub mod geo;
pub mod hashing;
pub mod import;
pub mod json;
pub mod listing;
pub mod litchi_parser;
pub mod manual;
pub mod models;
pub mod numbers;
pub mod ordering;
pub mod overview;
pub mod parser;
pub mod ranking;
pub mod regenerate;
pub mod series;
pub mod stats;
pub mod sync;
pub mod table;
pub mod tags;
pub mod text;
pub mod timestamps;
