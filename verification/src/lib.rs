//! Verified core of an expenditure-approval ticket system.
//!
//! A ticket climbs a ladder of approval levels chosen by its amount (with
//! per-company overrides), becomes available once the ladder is exhausted,
//! is taken by a receiver and eventually finished; rejection is a terminal
//! side branch.  The lifecycle state is never stored: it is a pure function
//! of the timestamps recorded on the ticket, which also yields the
//! point-in-time reconstruction used for reporting.

pub mod api;
pub mod assist;
pub mod catalog;
pub mod datetime;
pub mod entities;
pub mod errors;
pub mod lifecycle;
pub mod query;
pub mod report;
pub mod state;
