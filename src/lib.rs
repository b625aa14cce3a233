//! Detection of new unread entries between two listings of a feed aggregator,
//! the poll cycle that keeps the previous listing, and the text that announces
//! each new entry.

pub mod diff;
pub mod models;
pub mod notice;
pub mod poll;
