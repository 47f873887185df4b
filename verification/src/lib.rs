//! The logic of a small DAO pallet: organisations that members join by
//! donating, proposals that members vote on, and timer-driven recipes that pay
//! out an accepted proposal from an off-chain worker.

pub mod account;
pub mod bounded;
pub mod encoding;
pub mod types;
pub mod pallet;
pub mod offchain;
pub mod ordered_keys;
pub mod laws;
