//! A fungible-token ledger: balances, delegated allowances, minting by the
//! creator and burning by any holder, with the total supply kept equal to the
//! sum of all balances.
//!
//! The host supplies the calling account to every operation and delivers the
//! notifications that the ledger queues. A delegated transfer spends the
//! allowance that the source account granted to the caller. Minting that would
//! push the total supply past `Balance::MAX` is refused with `Error::Overflow`.

pub mod types;
pub mod store;
pub mod erc20;
pub mod laws;
