//! A sentiment classification library.
//!
//! Scores are held in fixed-point form: an `i64` counts ten-thousandths, so
//! the value `0.05` is stored as `500`. Every score that enters or leaves the
//! library does so either as such a scaled integer or as its plain decimal
//! rendering with four fractional digits.

pub mod scan;
pub mod num;
pub mod text;
pub mod classify;
pub mod config;
pub mod analyze;
pub mod report;
pub mod pipeline;
