use vstd::prelude::*;

verus! {

/// Amount of token units.
pub type Balance = u128;

/// An opaque 32-byte account identity, held as its high and low halves and
/// compared by equality only.
#[derive(Clone, Copy, Debug, PartialEq, Eq, Structural, Hash)]
pub struct AccountId {
    pub hi: u128,
    pub lo: u128,
}

/// Why a mutating ledger operation was refused.
#[derive(Clone, Copy, Debug, PartialEq, Eq, Structural)]
pub enum Error {
    /// The debited account holds less than the amount.
    InsufficientBalance,
    /// The spender's remaining allowance is less than the amount.
    InsufficientAllowance,
    /// Only the creator of the ledger may mint.
    OnlyForCreater,
    /// Minting would push the total supply past `Balance::MAX`.
    Overflow,
}

/// Notification of a balance movement; `from == None` marks a mint and
/// `to == None` a burn.
#[derive(Clone, Copy, Debug, PartialEq, Eq, Structural)]
pub struct Transfer {
    pub from: Option<AccountId>,
    pub to: Option<AccountId>,
    pub value: Balance,
}

/// Notification that `owner` set the allowance of `spender` to `value`.
#[derive(Clone, Copy, Debug, PartialEq, Eq, Structural)]
pub struct Approval {
    pub owner: AccountId,
    pub spender: AccountId,
    pub value: Balance,
}

/// A notification waiting to be delivered by the host.
#[derive(Clone, Copy, Debug, PartialEq, Eq, Structural)]
pub enum Event {
    Transfer(Transfer),
    Approval(Approval),
}

} // verus!
