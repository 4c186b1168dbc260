//! A busy-waiting mutual-exclusion primitive built on one atomic flag.
//!
//! [`RawSpinlock`] holds the flag and performs the atomic operations.
//! [`acquire::Acquire`] is the decision procedure of the blocking acquire:
//! which atomic operation to perform next, given what the last one reported.
//! [`protocol`] is an abstract model of the flag shared by several contexts.
//! It proves, of the model only, that the protocol grants the lock to at most
//! one context at a time, that a released lock can be taken again, and that
//! separate locks do not affect one another.
//!
//! No proof links [`RawSpinlock`] to that model. Its methods operate on a
//! shared `AtomicBool`, and Verus states nothing about an atomic's value
//! here, so their contracts say nothing about the flag. The model's
//! operations were written to match what those methods do, and that match
//! holds only by inspection. What is proved of the running code is the
//! [`acquire::Acquire`] step function.
pub mod acquire;
pub mod protocol;
pub mod raw;

pub use acquire::Acquire;
pub use raw::RawSpinlock;
