//! Continuous token distribution: a seller commits a fixed supply of an
//! output asset that is released over a schedule to buyers in proportion to
//! their share of the deposited input asset.
//!
//! The arithmetic is in [`ratio`] and [`decimal`]. [`state`] holds the two
//! records, [`distribution`] advances a stream in time, [`position`] credits
//! a buyer, and [`operations`], [`lifecycle`] and [`threshold`] are what can
//! be done to a stream. [`pool`] puts a stream together with all of its
//! positions, and [`laws`] proves what holds of every pool whatever is done
//! to it. [`factory`], [`validation`] and [`payment`] create streams. The
//! message types and their dispatch are in [`stream_swap`]; [`msg`] and
//! [`query`] are the time-scheduled interface.

pub mod decimal;
pub mod distribution;
pub mod error;
pub mod factory;
pub mod laws;
pub mod lifecycle;
pub mod msg;
pub mod operations;
pub mod payment;
pub mod pool;
pub mod position;
pub mod query;
pub mod ratio;
pub mod state;
pub mod stream_swap;
pub mod tally;
pub mod threshold;
pub mod validation;
