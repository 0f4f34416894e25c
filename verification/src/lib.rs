//! Verified core of a live aircraft-feed anomaly scanner.
//!
//! The crate classifies tracked aircraft against a set of intelligence
//! heuristics (speed, altimeter spoofing, ghost tracking, high-value type,
//! military flag, geofence), resolves operator labels from a reference
//! table with callsign-prefix fallback, renders the flagged set as a
//! geospatial export document, and publishes each completed scan cycle as
//! an atomically replaced snapshot for concurrent readers.
//!
//! Quantities are carried as integers throughout: speeds in knots,
//! altitudes in feet, coordinates in microdegrees, distances in metres.
//! The unverified boundary (network fetch, argument parsing, file output)
//! converts at the edge and hands this crate plain values.

pub mod classify;
pub mod db;
pub mod display;
pub mod geo;
pub mod kml;
pub mod record;
pub mod snapshot;
pub mod text;
