//! Non-interactive zero-knowledge proofs of knowledge of a discrete
//! logarithm (a Sigma protocol made non-interactive by the Fiat-Shamir
//! transform), and a signature scheme built on top of them by binding the
//! challenge derivation to a hash of the signed content.
//!
//! NB: THIS IS NOT SECURE. The integer width is far too small for the
//! discrete-logarithm problem to be hard, and the conditionals leak timing.

pub mod challenge;
pub mod dlog;
pub mod keys;
pub mod modarith;

use vstd::prelude::*;

verus! {

pub use crate::dlog::DiscreteLogPf;
pub use crate::keys::PrivateKey;
pub use crate::keys::PublicKey;
pub use crate::keys::Signature;

} // verus!
