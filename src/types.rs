use vstd::prelude::*;

verus! {

/// Identifier of a token class, assigned by the ledger in creation order.
pub type TokenId = u64;

/// Identity of an account holding or spending tokens.
pub type AccountId = u64;

/// An amount of some token.
pub type TokenBalance = u64;

/// Why an operation was rejected. A rejected operation changes nothing.
#[derive(Clone, Copy, Debug, PartialEq, Eq, Structural)]
pub enum LedgerError {
    /// Every token identifier has been used up.
    CounterOverflow,
    /// A transfer of nothing was requested.
    ZeroAmount,
    /// The source account holds less than the amount to move.
    InsufficientBalance,
    /// Crediting the destination would exceed the largest amount.
    BalanceOverflow,
    /// The spender may not move that much on the owner's behalf.
    InsufficientAllowance,
}

/// The record that a successful operation leaves behind.
#[derive(Clone, Copy, Debug, PartialEq, Eq, Structural)]
pub enum Event {
    /// A token was created: its id, its creator and its total supply.
    NewToken(TokenId, AccountId, TokenBalance),
    /// An amount of a token moved: id, source, destination, amount.
    Transfer(TokenId, AccountId, AccountId, TokenBalance),
    /// An allowance was set: id, owner, spender, amount.
    Approval(TokenId, AccountId, AccountId, TokenBalance),
}

} // verus!
