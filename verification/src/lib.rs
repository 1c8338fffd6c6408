//! Reconstruction of vehicle-level journeys from routing-query log lines.
//!
//! A log line records a user query together with the abstract journey options
//! (chains of legs, each naming a trip and its boundary stops) that were
//! returned to the user.  This crate parses such lines, matches each leg
//! against the full stop schedule of its vehicle, and rebuilds the ordered
//! point-to-point connections a traveller would take, including the number of
//! transfers.  Network retrieval and file handling live outside the library;
//! the library works on plain values and is verified.

pub mod text;
pub mod model;
pub mod json;
pub mod timefmt;
pub mod adapter;
pub mod schedule;
pub mod reconstruct;
pub mod serialize;
