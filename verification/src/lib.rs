//! Transaction-construction core of a confidential-transaction wallet.
//!
//! The crate selects spendable value records ("coins") under maturity and
//! output-count constraints, solves the fixed point between coin count and
//! fee, splits change losslessly across several outputs, tracks the ephemeral
//! per-build secrets, and commits the side effects of a finished build --
//! locking inputs, persisting change outputs and writing one history record --
//! as a single all-or-nothing step.  A secondary, fee-less asset ("token") is
//! tracked in parallel ledgers.
//!
//! Cryptographic collaborators (commitment math, key derivation, the
//! negotiation document's folding operation) are outside this core: their
//! results enter the library as plain values.

pub mod amount;
pub mod assembly;
pub mod context;
pub mod fee;
pub mod finalize;
pub mod flows;
pub mod selection;
pub mod solver;
pub mod types;
