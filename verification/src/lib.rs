//! Verification-time building blocks for elliptic-curve signatures.
//!
//! - [`hex`]: a strict fixed-width hexadecimal codec for two-component
//!   signature values, which accepts text in one case only;
//! - [`sec1`]: the framing of SEC1 encoded points;
//! - [`curve`]: what a curve supplies, and the relations by which the
//!   contracts speak of its answers;
//! - [`public_key`] and [`verify`]: keys made from encoded points, and the
//!   protocol that verifies a signature against a message or a digest;
//! - [`error`]: the one failure that all of them report.

pub mod curve;
pub mod error;
pub mod hex;
pub mod public_key;
pub mod sec1;
pub mod verify;
