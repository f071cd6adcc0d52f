//! Core of a two-phase interactive election: candidate collection, then
//! repeated voting rounds that award a first preference (2 points) and a
//! second preference (1 point), with live prefix search, self-exclusion of
//! the round's first choice, and a stable points ranking.
//!
//! Rendering and input handling are left to an external caller; this crate
//! holds the state machines, the filter and the scoring rules.

pub mod add;
pub mod candidate;
pub mod election;
pub mod ranking;
pub mod text;
