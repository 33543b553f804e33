//! A single-asset constant-product bonding curve ("fair launch") library.
//!
//! The library prices and executes buy/sell swaps between a base currency
//! (lamports) and a newly issued token, using a constant-product curve seeded
//! with virtual reserves, until a funding threshold completes the curve.
//!
//! All curve arithmetic is carried out in 128-bit integers with an explicit
//! rounding rule (the curve never pays out more than the exact real-valued
//! formula yields), so every value-affecting path is deterministic and
//! verified. Moving real funds, issuing tokens and recording metadata are the
//! host's business: the library computes the amounts, mutates the curve state,
//! and returns the records the host needs.

pub mod account;
pub mod config;
pub mod curve;
pub mod engine;
pub mod errors;
pub mod events;
pub mod launchpad;
pub mod laws;
pub mod math;
