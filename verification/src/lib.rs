//! A minimal modular state-transition runtime: independent pallets composed
//! behind one call interface, with a block executor that isolates the failure
//! of each extrinsic.

pub mod balances;
mod numeric;
pub mod proof_of_existence;
pub mod runtime;
pub mod store;
pub mod support;
pub mod system;
pub mod types;

pub use runtime::{Runtime, RuntimeCall};
