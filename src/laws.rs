use crate::holdings::{lemma_two_holdings_le_total, token_total};
use crate::model::{lemma_genesis_inv, lemma_run_inv, lemma_transfer_no_overflow, LedgerView, Operation};
use crate::types::{AccountId, Event, LedgerError, TokenBalance, TokenId};
use vstd::prelude::*;

verus! {

/// Conservation: after any sequence of operations on a new ledger, the
/// holdings of each token, summed over all accounts, equal its total supply.
pub proof fn conservation(ops: Seq<Operation>)
    ensures
        forall|t: TokenId|
            #[trigger] token_total(LedgerView::genesis().run(ops).balances, t)
                == LedgerView::genesis().run(ops).supply(t),
{
    lemma_genesis_inv();
    lemma_run_inv(LedgerView::genesis(), ops);
}

/// No holding or allowance is negative, and no holding exceeds the supply of
/// its token.
pub proof fn holdings_within_supply(s: LedgerView, id: TokenId, who: AccountId, spender: AccountId)
    requires
        s.inv(),
    ensures
        0 <= s.balance(id, who) <= s.supply(id),
        0 <= s.allowance(id, who, spender),
{
    let other: AccountId = if who == 0 { 1 } else { 0 };
    lemma_two_holdings_le_total(s.balances, id, (id, who), (id, other));
    assert(token_total(s.balances, id) == s.supply(id));
}

/// Two tokens created one after the other get increasing ids, the first one
/// being the counter's value, and each creator holds the whole supply.
pub proof fn created_ids_increase(
    s: LedgerView,
    a: AccountId,
    x: TokenBalance,
    b: AccountId,
    y: TokenBalance,
)
    requires
        s.create_token_step(a, x) is Ok,
        s.create_token_step(a, x)->Ok_0.0.create_token_step(b, y) is Ok,
    ensures
        ({
            let (s1, id1) = s.create_token_step(a, x)->Ok_0;
            let (s2, id2) = s1.create_token_step(b, y)->Ok_0;
            &&& id1 == s.count
            &&& id1 < id2
            &&& s1.balance(id1, a) == x && s1.supply(id1) == x
            &&& s2.balance(id2, b) == y && s2.supply(id2) == y
        }),
{
}

/// A transfer of nothing is refused.
pub proof fn zero_transfer_refused(s: LedgerView, id: TokenId, from: AccountId, to: AccountId)
    ensures
        s.transfer_step(id, from, to, 0) == Err::<LedgerView, LedgerError>(LedgerError::ZeroAmount),
{
}

/// A transfer of more than the source holds is refused.
pub proof fn overdraft_refused(
    s: LedgerView,
    id: TokenId,
    from: AccountId,
    to: AccountId,
    amount: TokenBalance,
)
    requires
        amount > s.balance(id, from),
    ensures
        s.transfer_step(id, from, to, amount) == Err::<LedgerView, LedgerError>(
            LedgerError::InsufficientBalance,
        ),
{
}

/// A second approval replaces the first rather than adding to it.
pub proof fn approval_replaces(
    s: LedgerView,
    owner: AccountId,
    id: TokenId,
    spender: AccountId,
    v: TokenBalance,
    w: TokenBalance,
)
    ensures
        s.approve_step(owner, id, spender, v).approve_step(owner, id, spender, w).allowance(
            id,
            owner,
            spender,
        ) == w,
{
}

/// A delegated transfer of a non-zero amount within both the allowance and
/// the source's holding succeeds: it charges the allowance exactly that
/// amount, moves it from `from` to `to`, touches no other holding or
/// allowance, and logs one transfer event.
pub proof fn delegated_transfer_succeeds(
    s: LedgerView,
    caller: AccountId,
    id: TokenId,
    from: AccountId,
    to: AccountId,
    v: TokenBalance,
)
    requires
        s.inv(),
        0 < v,
        v <= s.allowance(id, from, caller),
        v <= s.balance(id, from),
    ensures
        s.transfer_from_step(caller, id, from, to, v) is Ok,
        ({
            let s2 = s.transfer_from_step(caller, id, from, to, v)->Ok_0;
            &&& s2.allowance(id, from, caller) == s.allowance(id, from, caller) - v
            &&& from != to ==> s2.balance(id, from) == s.balance(id, from) - v
            &&& from != to ==> s2.balance(id, to) == s.balance(id, to) + v
            &&& from == to ==> s2.balance(id, from) == s.balance(id, from)
            &&& forall|t: TokenId, a: AccountId|
                (t, a) != (id, from) && (t, a) != (id, to) ==> #[trigger] s2.balance(t, a)
                    == s.balance(t, a)
            &&& forall|t: TokenId, o: AccountId, p: AccountId|
                (t, o, p) != (id, from, caller) ==> #[trigger] s2.allowance(t, o, p)
                    == s.allowance(t, o, p)
            &&& s2.events == s.events.push(Event::Transfer(id, from, to, v))
        }),
{
    lemma_transfer_no_overflow(s, id, from, to, v);
}

/// A delegated transfer beyond the allowance is refused.
pub proof fn allowance_exceeded_refused(
    s: LedgerView,
    caller: AccountId,
    id: TokenId,
    from: AccountId,
    to: AccountId,
    v: TokenBalance,
)
    requires
        v > s.allowance(id, from, caller),
    ensures
        s.transfer_from_step(caller, id, from, to, v) == Err::<LedgerView, LedgerError>(
            LedgerError::InsufficientAllowance,
        ),
{
}

/// Moving a non-zero amount that one holds to oneself succeeds, leaves every
/// holding as it was, and still logs a transfer event.
pub proof fn self_transfer_keeps_holding(
    s: LedgerView,
    id: TokenId,
    a: AccountId,
    amount: TokenBalance,
)
    requires
        0 < amount <= s.balance(id, a),
    ensures
        s.transfer_step(id, a, a, amount) is Ok,
        s.transfer_step(id, a, a, amount)->Ok_0.balances == s.balances,
        s.transfer_step(id, a, a, amount)->Ok_0.events == s.events.push(
            Event::Transfer(id, a, a, amount),
        ),
{
    let s2 = s.transfer_step(id, a, a, amount)->Ok_0;
    assert(s2.balances =~= s.balances);
}

} // verus!
