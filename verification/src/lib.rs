//! Analysis of financial transactions kept as lines of comma-separated text.
//!
//! A line is read into a [`transaction::Transaction`]: its fields are
//! validated one after the other, its country is resolved in the catalog of
//! [`location`], and its continent and the days under management are derived.
//! [`ingest`] reads a whole input and sets aside the lines that cannot be
//! accepted; [`analysis`] folds the accepted transactions into totals by
//! continent. Amounts are held exactly, as counts of millionths
//! ([`number::Amount`]); dates are read by `chrono` ([`date`]).
//!
//! Every function states what it returns over sequences of characters and
//! mathematical integers, and is verified against that statement.
//!
//! The modules [`task`], [`balance`] and [`market`] hold the rules of three
//! small programs that come with the analysis.

pub mod analysis;
pub mod balance;
pub mod date;
pub mod ingest;
pub mod location;
pub mod market;
pub mod number;
pub mod task;
pub mod text;
pub mod transaction;
