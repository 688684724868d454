//! A streaming bridge for log pipelines: records pulled from a partitioned
//! queue pass through an ordered chain of filters and are written in bulk to a
//! columnar store; consumption is confirmed only after the write succeeded.
//!
//! The crate holds the decisions of that bridge, each with a contract that
//! Verus proves. Waiting on the queue and sending to the store are left to the
//! caller, who drives [`pipeline::Pip`] with what those operations yield.

pub mod config;
pub mod date;
pub mod error;
pub mod filter;
pub mod json;
pub mod number;
pub mod parser;
pub mod pattern;
pub mod pipeline;
pub mod record;
pub mod sink;
pub mod source;
pub mod steps;
pub mod text;

pub use crate::config::{CObject, Section};
pub use crate::error::SyncError;
pub use crate::filter::Filter;
pub use crate::pipeline::Pip;
pub use crate::record::LogMessage;
