//! Collateral accounting for a lending protocol: an asset registry, per-account
//! collateral and borrow ledgers, price aggregation and the solvency check that
//! gates withdrawals.

pub mod decimal;
pub mod error;
pub mod asset;
pub mod table;
pub mod registry;
pub mod oracle;
pub mod solvency;
pub mod ledger;
pub mod contract;
pub mod msg;
pub mod oracle_manager;
pub mod mint_authority;
pub mod price_feed;
