//! A two-party escrow for exchanging one token for another.
//!
//! A maker locks an amount of one asset in a vault that only the recorded
//! offer controls, and names a price in a second asset. A taker who pays that
//! price receives the vault's contents, and the offer and its vault are
//! retired. Every operation either completes or leaves the ledger untouched.
//!
//! - [`address`]: addresses, and the derivation of the addresses of offers
//!   and of token accounts.
//! - [`offer`]: the record of a pending exchange.
//! - [`ledger`]: the token accounts and offers on which the operations act.
//! - [`instruction`]: the transfers and closings that an operation carries
//!   out.
//! - [`make_offer`] and [`take_offer`]: the accounts that each operation
//!   names, what is checked of them, and what the operation does.
//! - [`swap`]: the two operations.
//! - [`guarantees`]: what holds of the two operations on every ledger.
//! - [`error`]: the reasons for which an operation is rejected.

pub mod address;
pub mod error;
pub mod guarantees;
pub mod instruction;
pub mod ledger;
pub mod make_offer;
pub mod offer;
mod store;
pub mod swap;
pub mod take_offer;
