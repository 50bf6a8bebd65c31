//! The decisions of a market for unique assets that are paid for in a
//! fungible token, of the factory that creates such assets, and of a sale of
//! token packages. Nothing here talks to a ledger: every function takes what
//! the caller read from the outside as plain values and says what the caller
//! is to store and which calls it is to make.
//!
//! - [`listing`]: the active listings, with the exclusive removal that keeps
//!   an asset from being sold twice.
//! - [`payout`]: the split of a price among royalty recipients and seller.
//! - [`saga`]: the record of one sale and the steps that it takes.
//! - [`compensation`]: the log of the sales that are under way or have failed.
//! - [`market`]: offers, and the answers of the ledgers.
//! - [`laws`]: what holds of the market whatever happens.
//! - [`factory`] and [`token_id`]: the creation of tokens against a fee.
//! - [`packages`]: the sale of token packages.
//! - [`assoc`], [`text`] and [`json`]: lists as maps, decimal numbers, and
//!   the one call into `serde_json`.

pub mod assoc;
pub mod compensation;
pub mod factory;
pub mod json;
pub mod laws;
pub mod listing;
pub mod market;
pub mod packages;
pub mod payout;
pub mod saga;
pub mod text;
pub mod token_id;
