//! Helpers for testing NEAR smart contracts in a sandbox: token amounts and
//! timestamps, decimal text, call outcomes and a registry of deployed
//! contracts and tokens.

pub mod context;
pub mod decimal;
pub mod near;
pub mod outcome;
pub mod registry;
pub mod text;
pub mod timestamp_impl;
pub mod types;
pub mod u128_impl;

pub use context::{ContractSpec, SandboxContext, SandboxContextBuilder, TokenInfo, TokenSpec};
pub use timestamp_impl::{fast_forward_step, TimestampExtension};
pub use types::{FungibleTokenMetadata, StorageBalanceBounds, Timestamp, TokenDecimals};
pub use u128_impl::U128Extensions;
