//! Core engine of a textual sound-synthesis language: chains of numeric
//! expressions and note timelines are evaluated sample by sample into a
//! PCM signal.
//!
//! Scalars are IEEE-754 double-precision values carried as their `u64` bit
//! patterns, so that contracts can speak of them exactly; the arithmetic
//! itself is performed by outside software floating-point crates behind
//! trusted wrappers in `scalar`.

pub mod scalar;
pub mod value;
pub mod chain;
pub mod token;
pub mod error;
pub mod registry;
pub mod timeline;
pub mod eval;
pub mod schedule;
