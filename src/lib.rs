//! A multi-asset fungible-token ledger: minting of token classes, direct
//! transfers, allowances and delegated transfers, with every operation
//! specified as an atomic transition of an abstract ledger state.

mod holdings;
mod laws;
mod ledger;
mod model;
mod types;

pub use holdings::{holding, sum_holdings, token_total};
pub use laws::{
    allowance_exceeded_refused, approval_replaces, conservation, created_ids_increase,
    delegated_transfer_succeeds, holdings_within_supply, overdraft_refused,
    self_transfer_keeps_holding, zero_transfer_refused,
};
pub use ledger::Ledger;
pub use model::{LedgerView, Operation};
pub use types::{AccountId, Event, LedgerError, TokenBalance, TokenId};
