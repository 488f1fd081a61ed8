//! A fungible-token ledger: per-account balances, a total-supply counter,
//! spender allowances, and administrative controls (owner-only minting,
//! pause, blacklist). The central invariant — the sum of all stored balances
//! equals the total supply — is maintained by every operation and stated in
//! every contract.

pub mod laws;
pub mod ledger;
pub mod store;
pub mod types;

pub use ledger::SimpleToken;

pub use types::{AccountId, Approval, Balance, Error, Event, Mint, Transfer};
