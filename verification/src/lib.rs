//! A minimal ledger runtime: independent state modules ("pallets") composed
//! into a single runtime that processes ordered blocks of caller-attributed
//! instructions ("extrinsics") and applies them deterministically.

pub mod store;
pub mod support;
pub mod system;
pub mod balances;
pub mod proof_of_existence;
pub mod runtime;

pub use crate::runtime::{Block, Extrinsic, Header, Runtime, RuntimeCall};
