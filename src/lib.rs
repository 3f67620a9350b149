//! Entropy acquisition, mixing and quality testing for Linux userspace.
//!
//! The verified core: labelled hashing of entropy inputs into a seed, stream
//! expansion of that seed, CPU-RNG configuration and source selection, the
//! kernel entropy-injection record, the FIPS 140-2 test battery, duration and
//! source-filter parsing, and the output encoders.

pub mod error;
pub mod config;
pub mod zeroize;
pub mod mixer;
pub mod csprng;
pub mod text;
pub mod cpurng;
pub mod fallback;
pub mod stats;
pub mod daemon;
pub mod check;
pub mod entropy;
pub mod output;
pub mod jitter;
pub mod logging;
