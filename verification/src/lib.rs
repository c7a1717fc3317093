//! Core of a personal timeline keeper: dated events (name, date-time,
//! description) are drafted through an entry form, committed into an ordered
//! timeline, and persisted as a single structured snapshot.
//!
//! The presentation layer (windowing, widgets, scheduling of saves) lives
//! outside this crate; everything here is plain data and verified logic.

pub mod about;
pub mod codec;
pub mod datetime;
pub mod event;
pub mod state;
pub mod timeline;
