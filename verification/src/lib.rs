//! Core domain model for periodic offshore vessel routing: catalogue
//! entities (installations, vessels, a base), a symmetric pairwise
//! travel-distance matrix, and the incremental voyage/visit assignment
//! machinery that enforces deck-capacity and scheduling-consistency
//! invariants as a route is built up visit by visit.
//!
//! Coordinates, service times and distances are held as exact integer
//! quantities (millionths of a degree, seconds, thousandths of a
//! nautical mile); great-circle arithmetic itself is left to callers.

pub mod constants;
pub mod data_loader;
pub mod distance_manager;
pub mod errors;
pub mod node;
pub mod parsing;
pub mod vessel;
pub mod visit;
pub mod voyage;
