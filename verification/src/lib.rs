//! A bounded pseudo-random sampler.
//!
//! A [`RandomSample`] keeps a counter (the salt) and the value it produced
//! last. Each draw hashes the current block timestamp together with the salt
//! with Keccak-256, advances the salt by one and reduces the first digest
//! byte into the inclusive range `0..=max_value`.
//!
//! Everything except the two calls into the host environment (the hash and
//! the timestamp) is verified; the contracts are stated over the spec
//! functions of [`encoding`], [`host`] and [`sample`].

pub mod encoding;
pub mod host;
pub mod sample;

pub use sample::RandomSample;
pub use sample::SampleState;
