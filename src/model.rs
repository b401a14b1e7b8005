use crate::holdings::{holding, lemma_total_insert, lemma_two_holdings_le_total, token_total};
use crate::types::{AccountId, Event, LedgerError, TokenBalance, TokenId};
use vstd::prelude::*;

verus! {

/// One call into the ledger, with the account that makes it.
pub enum Operation {
    CreateToken { caller: AccountId, supply: TokenBalance },
    Transfer { caller: AccountId, id: TokenId, to: AccountId, amount: TokenBalance },
    Approve { caller: AccountId, id: TokenId, spender: AccountId, value: TokenBalance },
    TransferFrom {
        caller: AccountId,
        id: TokenId,
        from: AccountId,
        to: AccountId,
        value: TokenBalance,
    },
}

/// The state of a ledger, as its contracts speak of it. An absent entry of
/// `total_supply`, `balances` or `allowances` stands for zero.
pub struct LedgerView {
    /// The id that the next created token receives.
    pub count: TokenId,
    /// Amount minted for each created token.
    pub total_supply: Map<TokenId, TokenBalance>,
    /// Holding of each (token, account).
    pub balances: Map<(TokenId, AccountId), TokenBalance>,
    /// What a spender may move out of an owner's holding: (token, owner, spender).
    pub allowances: Map<(TokenId, AccountId, AccountId), TokenBalance>,
    /// Events of the successful operations, oldest first.
    pub events: Seq<Event>,
}

impl LedgerView {
    /// A ledger in which nothing has happened yet.
    pub open spec fn genesis() -> LedgerView {
        LedgerView {
            count: 0,
            total_supply: Map::empty(),
            balances: Map::empty(),
            allowances: Map::empty(),
            events: Seq::empty(),
        }
    }

    pub open spec fn supply(self, id: TokenId) -> TokenBalance {
        if self.total_supply.contains_key(id) {
            self.total_supply[id]
        } else {
            0
        }
    }

    pub open spec fn balance(self, id: TokenId, who: AccountId) -> TokenBalance {
        if self.balances.contains_key((id, who)) {
            self.balances[(id, who)]
        } else {
            0
        }
    }

    pub open spec fn allowance(self, id: TokenId, owner: AccountId, spender: AccountId) -> TokenBalance {
        if self.allowances.contains_key((id, owner, spender)) {
            self.allowances[(id, owner, spender)]
        } else {
            0
        }
    }

    /// The ledger's invariant: created tokens are exactly those below the
    /// counter, only they have holdings, and the holdings of every token add
    /// up to its total supply.
    pub open spec fn inv(self) -> bool {
        &&& self.balances.dom().finite()
        &&& forall|id: TokenId| #[trigger] self.total_supply.contains_key(id) <==> id < self.count
        &&& forall|k: (TokenId, AccountId)| #[trigger] self.balances.contains_key(k) ==> k.0 < self.count
        &&& forall|id: TokenId| #[trigger] token_total(self.balances, id) == self.supply(id)
    }

    pub open spec fn with_balance(self, id: TokenId, who: AccountId, v: TokenBalance) -> LedgerView {
        LedgerView { balances: self.balances.insert((id, who), v), ..self }
    }

    pub open spec fn with_event(self, e: Event) -> LedgerView {
        LedgerView { events: self.events.push(e), ..self }
    }

    /// `caller` creates a token of supply `supply`: the new state and the
    /// token's id, or why it is refused.
    pub open spec fn create_token_step(self, caller: AccountId, supply: TokenBalance) -> Result<
        (LedgerView, TokenId),
        LedgerError,
    > {
        if self.count == u64::MAX {
            Err(LedgerError::CounterOverflow)
        } else {
            let id = self.count;
            Ok(
                (
                    LedgerView {
                        count: (id + 1) as TokenId,
                        total_supply: self.total_supply.insert(id, supply),
                        balances: self.balances.insert((id, caller), supply),
                        events: self.events.push(Event::NewToken(id, caller, supply)),
                        ..self
                    },
                    id,
                ),
            )
        }
    }

    /// `amount` of token `id` moves from `from` to `to`. The source is
    /// debited before the destination is credited, so that moving to oneself
    /// leaves the holding as it was.
    pub open spec fn transfer_step(
        self,
        id: TokenId,
        from: AccountId,
        to: AccountId,
        amount: TokenBalance,
    ) -> Result<LedgerView, LedgerError> {
        if amount == 0 {
            Err(LedgerError::ZeroAmount)
        } else if self.balance(id, from) < amount {
            Err(LedgerError::InsufficientBalance)
        } else {
            let debited = self.with_balance(id, from, (self.balance(id, from) - amount) as TokenBalance);
            let credited = debited.balance(id, to) + amount;
            if credited > u64::MAX {
                Err(LedgerError::BalanceOverflow)
            } else {
                Ok(
                    debited.with_balance(id, to, credited as TokenBalance).with_event(
                        Event::Transfer(id, from, to, amount),
                    ),
                )
            }
        }
    }

    /// `owner` allows `spender` to move `value` of token `id`, replacing any
    /// earlier allowance.
    pub open spec fn approve_step(
        self,
        owner: AccountId,
        id: TokenId,
        spender: AccountId,
        value: TokenBalance,
    ) -> LedgerView {
        LedgerView {
            allowances: self.allowances.insert((id, owner, spender), value),
            events: self.events.push(Event::Approval(id, owner, spender, value)),
            ..self
        }
    }

    /// `caller` moves `value` of token `id` from `from` to `to` out of the
    /// allowance that `from` gave it. The allowance is charged only when the
    /// transfer itself succeeds.
    pub open spec fn transfer_from_step(
        self,
        caller: AccountId,
        id: TokenId,
        from: AccountId,
        to: AccountId,
        value: TokenBalance,
    ) -> Result<LedgerView, LedgerError> {
        let allowed = self.allowance(id, from, caller);
        if value > allowed {
            Err(LedgerError::InsufficientAllowance)
        } else {
            match self.transfer_step(id, from, to, value) {
                Ok(s) => Ok(
                    LedgerView {
                        allowances: s.allowances.insert((id, from, caller), (allowed - value) as TokenBalance),
                        ..s
                    },
                ),
                Err(e) => Err(e),
            }
        }
    }
}

impl LedgerView {
    /// The state after `op`; a refused operation leaves the state as it was.
    pub open spec fn apply(self, op: Operation) -> LedgerView {
        match op {
            Operation::CreateToken { caller, supply } => match self.create_token_step(caller, supply) {
                Ok((s, _)) => s,
                Err(_) => self,
            },
            Operation::Transfer { caller, id, to, amount } => match self.transfer_step(
                id,
                caller,
                to,
                amount,
            ) {
                Ok(s) => s,
                Err(_) => self,
            },
            Operation::Approve { caller, id, spender, value } => self.approve_step(
                caller,
                id,
                spender,
                value,
            ),
            Operation::TransferFrom { caller, id, from, to, value } => match self.transfer_from_step(
                caller,
                id,
                from,
                to,
                value,
            ) {
                Ok(s) => s,
                Err(_) => self,
            },
        }
    }

    /// The state after the operations `ops`, applied in order.
    pub open spec fn run(self, ops: Seq<Operation>) -> LedgerView
        decreases ops.len(),
    {
        if ops.len() == 0 {
            self
        } else {
            self.apply(ops[0]).run(ops.drop_first())
        }
    }
}

pub proof fn lemma_genesis_inv()
    ensures
        LedgerView::genesis().inv(),
{
    let g = LedgerView::genesis();
    assert forall|id: TokenId| #[trigger] token_total(g.balances, id) == g.supply(id) by {
        assert(g.balances.dom() =~= Set::empty());
    }
}

pub proof fn lemma_create_token_inv(s: LedgerView, caller: AccountId, supply: TokenBalance)
    requires
        s.inv(),
    ensures
        s.create_token_step(caller, supply) matches Ok((s2, _)) ==> s2.inv(),
{
    if let Ok((s2, id)) = s.create_token_step(caller, supply) {
        assert(!s.balances.contains_key((id, caller)));
        assert forall|t: TokenId| #[trigger] token_total(s2.balances, t) == s2.supply(t) by {
            lemma_total_insert(s.balances, t, (id, caller), supply);
            assert(token_total(s.balances, t) == s.supply(t));
        }
    }
}

/// Under the invariant a transfer is never refused for overflow: what two
/// accounts hold together never exceeds the token's supply.
pub proof fn lemma_transfer_no_overflow(
    s: LedgerView,
    id: TokenId,
    from: AccountId,
    to: AccountId,
    amount: TokenBalance,
)
    requires
        s.inv(),
    ensures
        s.transfer_step(id, from, to, amount) != Err::<LedgerView, LedgerError>(
            LedgerError::BalanceOverflow,
        ),
{
    if from != to {
        lemma_two_holdings_le_total(s.balances, id, (id, from), (id, to));
        assert(token_total(s.balances, id) == s.supply(id));
    }
}

pub proof fn lemma_transfer_inv(
    s: LedgerView,
    id: TokenId,
    from: AccountId,
    to: AccountId,
    amount: TokenBalance,
)
    requires
        s.inv(),
    ensures
        s.transfer_step(id, from, to, amount) matches Ok(s2) ==> s2.inv(),
{
    if let Ok(s2) = s.transfer_step(id, from, to, amount) {
        let debited = s.with_balance(id, from, (s.balance(id, from) - amount) as TokenBalance);
        assert(s.balances.contains_key((id, from)));
        assert forall|t: TokenId| #[trigger] token_total(s2.balances, t) == s2.supply(t) by {
            lemma_total_insert(s.balances, t, (id, from), debited.balance(id, from));
            lemma_total_insert(debited.balances, t, (id, to), s2.balance(id, to));
            assert(token_total(s.balances, t) == s.supply(t));
        }
    }
}

pub proof fn lemma_transfer_from_inv(
    s: LedgerView,
    caller: AccountId,
    id: TokenId,
    from: AccountId,
    to: AccountId,
    value: TokenBalance,
)
    requires
        s.inv(),
    ensures
        s.transfer_from_step(caller, id, from, to, value) matches Ok(s2) ==> s2.inv(),
{
    lemma_transfer_inv(s, id, from, to, value);
}

/// Every operation keeps the invariant.
pub proof fn lemma_apply_inv(s: LedgerView, op: Operation)
    requires
        s.inv(),
    ensures
        s.apply(op).inv(),
{
    match op {
        Operation::CreateToken { caller, supply } => lemma_create_token_inv(s, caller, supply),
        Operation::Transfer { caller, id, to, amount } => lemma_transfer_inv(s, id, caller, to, amount),
        Operation::Approve { .. } => {},
        Operation::TransferFrom { caller, id, from, to, value } => lemma_transfer_from_inv(
            s,
            caller,
            id,
            from,
            to,
            value,
        ),
    }
}

/// Every sequence of operations keeps the invariant.
pub proof fn lemma_run_inv(s: LedgerView, ops: Seq<Operation>)
    requires
        s.inv(),
    ensures
        s.run(ops).inv(),
    decreases ops.len(),
{
    if ops.len() > 0 {
        lemma_apply_inv(s, ops[0]);
        lemma_run_inv(s.apply(ops[0]), ops.drop_first());
    }
}

} // verus!
