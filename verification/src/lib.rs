//! Cryptographic core of a two-party secure computation engine based on
//! authenticated garbled circuits.
//!
//! A *Contributor* and an *Evaluator* jointly evaluate a Boolean circuit on
//! their private inputs. This crate holds the primitive layer underneath the
//! protocol: the authenticated-bit MAC algebra, hash-based gate garbling, the
//! leaky-delta oblivious-transfer extension, the leaky-AND sub-protocol and
//! commitment-based coin tossing, together with the circuit representation
//! and its cleartext semantics.

pub mod circuit;
pub mod cointossing;
pub mod garbling_hash;
pub mod hash;
pub mod leakyand;
pub mod leakydelta_ot;
pub mod requests;
pub mod types;

pub use circuit::{Circuit, CircuitBlake3Hash, Gate};
pub use requests::{MpcRequest, MpcSession, NewSession};
pub use types::{BitShare, Delta, Error, GateIndex, KeyType, MacType, WireLabel, K};
