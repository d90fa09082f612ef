//! Turns the daily totals of a charting service into labelled time series for
//! a notebook graph, and routes the query types of the provider that serves
//! them.
//!
//! - [`upstream`]: the service's records, and the series made of them.
//! - [`clv`]: raw samples and raw series, and the series builder.
//! - [`timeseries`]: samples and series.
//! - [`labels`]: label sets.
//! - [`provider`]: query types, the graph cell and the status report.
//! - [`dates`]: the midnight of a calendar day, read by chrono.
//! - [`literal`]: the texts that denote a floating-point number.
//! - [`decimal`]: the decimal text of an integer.
//! - [`text`]: strings as sequences of characters.
//! - [`error`]: what can go wrong.
//!
//! The library neither fetches nor encodes anything, and holds no
//! floating-point number: a sample's number is kept as the text that denotes
//! it.

pub mod clv;
pub mod dates;
pub mod decimal;
pub mod error;
pub mod labels;
pub mod literal;
pub mod provider;
pub mod text;
pub mod timeseries;
pub mod upstream;
