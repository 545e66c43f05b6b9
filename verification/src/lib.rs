//! Persistence and monthly statistics for a personal drinking log.
//!
//! Quantities are exact decimal fixed-point integers: volumes in thousandths
//! of a millilitre, alcohol content in thousandths of a percent, and alcohol
//! intake in billionths of a gram.

pub mod calendar;
pub mod commands;
pub mod db;
pub mod error;
pub mod intake;
pub mod laws;
pub mod models;
pub mod order;
pub mod rows;
pub mod schema;
pub mod statements;
pub mod store;
pub mod text;
