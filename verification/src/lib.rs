//! Suntrack: the verified core of a desktop time tracker.
//!
//! The library holds everything the tracker decides: how live usage is
//! accumulated and totalled, how a tick of sampled time is split across
//! midnight and carried between ticks, how days are keyed and stepped, how
//! durations and the configuration file are written, and what the dashboard
//! shows for a set of usage rows. Window sampling, the database, the clock and
//! the GUI live outside it and hand it plain values.

pub mod text;
pub mod state;
pub mod usage;
pub mod config;
pub mod tracker;
pub mod dates;
pub mod dashboard;
pub mod sessions;
pub mod view_state;
pub mod paths;
