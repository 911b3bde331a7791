//! A minimal state-transition runtime.
//!
//! Three independent state modules (system bookkeeping, account balances and
//! a claim registry) are combined into one runtime, which routes calls to
//! the module that owns them and executes numbered blocks of extrinsics.

pub mod balances;
pub mod chain;
pub mod proof_of_existence;
pub mod runtime;
pub mod system;
pub mod table;
pub mod types;
pub mod utils;

pub use runtime::{Runtime, RuntimeCall};
