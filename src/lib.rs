//! A single-asset ledger: a store of account balances with a fixed total supply, issued once to
//! one account and then moved between accounts by checked transfers that conserve it.

pub mod pallet;
pub mod store;

pub use pallet::{plan_init, plan_transfer, Error, Event, Pallet};
pub use store::{AccountId, LedgerStore, TOTAL_SUPPLY_DEFAULT};
