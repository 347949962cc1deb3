//! Cohen's class of bilinear time-frequency distributions: the index and
//! phase logic of the ambiguity surface and of its two-dimensional inverse
//! transform, with an exact model of the ambiguity surface for integer
//! samples.
//!
//! - `lag`: the sample times whose lag partners lie inside the signal.
//! - `phase`: exponents of the complex exponentials, as integers modulo `n`.
//! - `plan`: the terms that make up each ambiguity cell and each
//!   distribution cell.
//! - `exact`: ambiguity cells of integer signals, exactly.
//! - `laws`: properties that relate the above.

pub mod lag;
pub mod phase;
pub mod plan;
pub mod exact;
pub mod laws;
