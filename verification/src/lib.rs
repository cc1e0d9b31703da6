//! Printable multiplication-practice worksheets.
//!
//! The crate has two halves. The generator draws an ordered list of
//! multiplication problems under variety rules: the multipliers 0, 1 and 10
//! appear at most once per worksheet, and no multiplier comes back within
//! four problems of its last use. The layout engine places any number of
//! problem lines on a fixed A4 page in two columns and sizes the font so that
//! the rows fill the page height exactly. All lengths are exact fractions.

pub mod form;
pub mod generator;
pub mod layout;
pub mod problem;
mod random;
pub mod request;
pub mod rules;
