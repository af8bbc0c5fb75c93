//! Random secret generation under compositional constraints, together with
//! structural password analysis, a composite strength score, a pattern-aware
//! crack-time estimate, and thin digest/encoding pass-throughs.

pub mod analyzer;
pub mod chars;
pub mod digests;
pub mod errors;
pub mod estimator;
pub mod generator;
mod random;
pub mod sampler;
pub mod scorer;
mod strutil;
pub mod syllables;
pub mod vocab;
pub mod words;
