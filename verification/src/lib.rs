//! Verified decoding and pricing of a concentrated-liquidity pool account.
//!
//! The library turns the raw byte buffer of one on-chain pool account into a
//! typed [`state::PoolState`] record (module [`codec`]), validates that the
//! record belongs to the expected program and trading pair, and derives an
//! exact spot price from the Q64.64 square-root-price field (modules
//! [`validate`] and [`price`]). All arithmetic is exact integer arithmetic;
//! callers render the price to a decimal at the edge of the system.

pub mod codec;
pub mod ident;
pub mod num;
pub mod price;
pub mod state;
pub mod validate;
