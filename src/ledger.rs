use crate::model::{
    lemma_create_token_inv, lemma_genesis_inv, lemma_transfer_from_inv, lemma_transfer_inv,
    lemma_transfer_no_overflow, LedgerView,
};
use crate::types::{AccountId, Event, LedgerError, TokenBalance, TokenId};
use std::collections::BTreeMap;
use vstd::prelude::*;

verus! {

broadcast use vstd::std_specs::btree::group_btree_axioms, vstd::laws_cmp::group_laws_cmp;

/// A multi-asset token ledger: its token counter, total supplies, holdings,
/// allowances, and the log of events of its successful operations.
pub struct Ledger {
    count: TokenId,
    total_supply: BTreeMap<TokenId, TokenBalance>,
    balances: BTreeMap<(TokenId, AccountId), TokenBalance>,
    allowances: BTreeMap<(TokenId, AccountId, AccountId), TokenBalance>,
    events: Vec<Event>,
}

impl View for Ledger {
    type V = LedgerView;

    closed spec fn view(&self) -> LedgerView {
        LedgerView {
            count: self.count,
            total_supply: self.total_supply@,
            balances: self.balances@,
            allowances: self.allowances@,
            events: self.events@,
        }
    }
}

impl Ledger {
    /// Well-formedness: the state satisfies the ledger's invariant.
    pub open spec fn wf(&self) -> bool {
        self@.inv()
    }

    /// An empty ledger: no token, no holding, no allowance, no event.
    pub fn new() -> (r: Ledger)
        ensures
            r.wf(),
            r@ == LedgerView::genesis(),
    {
        let r = Ledger {
            count: 0,
            total_supply: BTreeMap::new(),
            balances: BTreeMap::new(),
            allowances: BTreeMap::new(),
            events: Vec::new(),
        };
        proof {
            lemma_genesis_inv();
            assert(r@ =~= LedgerView::genesis());
        }
        r
    }

    /// The id that the next created token will receive.
    pub fn count(&self) -> (r: TokenId)
        ensures
            r == self@.count,
    {
        self.count
    }

    /// Total supply of token `id`; zero for a token never created.
    pub fn total_supply(&self, id: TokenId) -> (r: TokenBalance)
        ensures
            r == self@.supply(id),
    {
        match self.total_supply.get(&id) {
            Some(v) => *v,
            None => 0,
        }
    }

    /// What `who` holds of token `id`.
    pub fn balance_of(&self, id: TokenId, who: AccountId) -> (r: TokenBalance)
        ensures
            r == self@.balance(id, who),
    {
        match self.balances.get(&(id, who)) {
            Some(v) => *v,
            None => 0,
        }
    }

    /// What `spender` may still move of `owner`'s holding of token `id`.
    pub fn allowance_of(&self, id: TokenId, owner: AccountId, spender: AccountId) -> (r:
        TokenBalance)
        ensures
            r == self@.allowance(id, owner, spender),
    {
        match self.allowances.get(&(id, owner, spender)) {
            Some(v) => *v,
            None => 0,
        }
    }

    /// The events of the successful operations so far, oldest first.
    pub fn events(&self) -> (r: &Vec<Event>)
        ensures
            r@ == self@.events,
    {
        &self.events
    }

    /// Hands out the events logged so far and empties the log.
    pub fn take_events(&mut self) -> (r: Vec<Event>)
        requires
            old(self).wf(),
        ensures
            final(self).wf(),
            r@ == old(self)@.events,
            final(self)@ == (LedgerView { events: Seq::empty(), ..old(self)@ }),
    {
        let mut out: Vec<Event> = Vec::new();
        std::mem::swap(&mut out, &mut self.events);
        proof {
            assert(self@ =~= (LedgerView { events: Seq::empty(), ..old(self)@ }));
        }
        out
    }

    /// `caller` creates a token whose whole supply `supply` it holds. The new
    /// token gets the counter's value as its id.
    pub fn create_token(&mut self, caller: AccountId, supply: TokenBalance) -> (r: Result<
        TokenId,
        LedgerError,
    >)
        requires
            old(self).wf(),
        ensures
            final(self).wf(),
            match old(self)@.create_token_step(caller, supply) {
                Ok((s, id)) => r == Ok::<TokenId, LedgerError>(id) && final(self)@ == s,
                Err(e) => r == Err::<TokenId, LedgerError>(e) && final(self)@ == old(self)@,
            },
    {
        proof {
            lemma_create_token_inv(self@, caller, supply);
        }
        let id = self.count;
        let next_id = match id.checked_add(1) {
            Some(n) => n,
            None => return Err(LedgerError::CounterOverflow),
        };
        self.balances.insert((id, caller), supply);
        self.total_supply.insert(id, supply);
        self.count = next_id;
        self.events.push(Event::NewToken(id, caller, supply));
        Ok(id)
    }

    /// Moves `amount` of token `id` from `from` to `to`, all or nothing.
    fn make_transfer(&mut self, id: TokenId, from: AccountId, to: AccountId, amount: TokenBalance) -> (r:
        Result<(), LedgerError>)
        requires
            old(self).wf(),
        ensures
            final(self).wf(),
            match old(self)@.transfer_step(id, from, to, amount) {
                Ok(s) => r is Ok && final(self)@ == s,
                Err(e) => r == Err::<(), LedgerError>(e) && final(self)@ == old(self)@,
            },
    {
        proof {
            lemma_transfer_inv(self@, id, from, to, amount);
        }
        if amount == 0 {
            return Err(LedgerError::ZeroAmount);
        }
        let from_balance = self.balance_of(id, from);
        if from_balance < amount {
            return Err(LedgerError::InsufficientBalance);
        }
        let debited = from_balance - amount;
        let to_balance = if to == from {
            debited
        } else {
            self.balance_of(id, to)
        };
        let credited = match to_balance.checked_add(amount) {
            Some(v) => v,
            None => return Err(LedgerError::BalanceOverflow),
        };
        self.balances.insert((id, from), debited);
        self.balances.insert((id, to), credited);
        self.events.push(Event::Transfer(id, from, to, amount));
        Ok(())
    }

    /// `caller` moves `amount` of token `id` from its own holding to `to`.
    pub fn transfer(&mut self, caller: AccountId, id: TokenId, to: AccountId, amount: TokenBalance) -> (r:
        Result<(), LedgerError>)
        requires
            old(self).wf(),
        ensures
            final(self).wf(),
            match old(self)@.transfer_step(id, caller, to, amount) {
                Ok(s) => r is Ok && final(self)@ == s,
                Err(e) => r == Err::<(), LedgerError>(e) && final(self)@ == old(self)@,
            },
            r != Err::<(), LedgerError>(LedgerError::BalanceOverflow),
    {
        proof {
            lemma_transfer_no_overflow(self@, id, caller, to, amount);
        }
        self.make_transfer(id, caller, to, amount)
    }

    /// `caller` allows `spender` to move up to `value` of its holding of token
    /// `id`, replacing any allowance given before. Always succeeds.
    pub fn approve(&mut self, caller: AccountId, id: TokenId, spender: AccountId, value: TokenBalance)
        requires
            old(self).wf(),
        ensures
            final(self).wf(),
            final(self)@ == old(self)@.approve_step(caller, id, spender, value),
    {
        self.allowances.insert((id, caller, spender), value);
        self.events.push(Event::Approval(id, caller, spender, value));
    }

    /// `caller` moves `value` of token `id` from `from` to `to`, charged to
    /// the allowance that `from` gave `caller`.
    pub fn transfer_from(
        &mut self,
        caller: AccountId,
        id: TokenId,
        from: AccountId,
        to: AccountId,
        value: TokenBalance,
    ) -> (r: Result<(), LedgerError>)
        requires
            old(self).wf(),
        ensures
            final(self).wf(),
            match old(self)@.transfer_from_step(caller, id, from, to, value) {
                Ok(s) => r is Ok && final(self)@ == s,
                Err(e) => r == Err::<(), LedgerError>(e) && final(self)@ == old(self)@,
            },
            r != Err::<(), LedgerError>(LedgerError::BalanceOverflow),
    {
        proof {
            lemma_transfer_from_inv(self@, caller, id, from, to, value);
            lemma_transfer_no_overflow(self@, id, from, to, value);
        }
        let allowance = self.allowance_of(id, from, caller);
        let updated_allowance = match allowance.checked_sub(value) {
            Some(v) => v,
            None => return Err(LedgerError::InsufficientAllowance),
        };
        match self.make_transfer(id, from, to, value) {
            Ok(()) => {},
            Err(e) => return Err(e),
        }
        self.allowances.insert((id, from, caller), updated_allowance);
        Ok(())
    }
}

} // verus!
