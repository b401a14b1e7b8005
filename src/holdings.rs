use crate::types::{AccountId, TokenBalance, TokenId};
use vstd::prelude::*;

verus! {

/// What the entry under `k` contributes to the holdings of token `t`: its
/// amount when it is an entry of `t`, else nothing.
pub open spec fn holding(
    m: Map<(TokenId, AccountId), TokenBalance>,
    t: TokenId,
    k: (TokenId, AccountId),
) -> int {
    if k.0 == t && m.contains_key(k) {
        m[k] as int
    } else {
        0
    }
}

/// Sum of the holdings of token `t` over the entries `keys` of `m`.
pub open spec fn sum_holdings(
    m: Map<(TokenId, AccountId), TokenBalance>,
    t: TokenId,
    keys: Set<(TokenId, AccountId)>,
) -> int
    decreases keys.len(),
    when keys.finite()
{
    if keys.len() == 0 {
        0
    } else {
        let k = keys.choose();
        holding(m, t, k) + sum_holdings(m, t, keys.remove(k))
    }
}

/// Sum, over all accounts, of what they hold of token `t`.
pub open spec fn token_total(m: Map<(TokenId, AccountId), TokenBalance>, t: TokenId) -> int {
    sum_holdings(m, t, m.dom())
}

/// Any one entry can be taken out of the sum first.
pub proof fn lemma_sum_remove(
    m: Map<(TokenId, AccountId), TokenBalance>,
    t: TokenId,
    keys: Set<(TokenId, AccountId)>,
    k: (TokenId, AccountId),
)
    requires
        keys.finite(),
        keys.contains(k),
    ensures
        sum_holdings(m, t, keys) == holding(m, t, k) + sum_holdings(m, t, keys.remove(k)),
    decreases keys.len(),
{
    let c = keys.choose();
    if c != k {
        lemma_sum_remove(m, t, keys.remove(c), k);
        lemma_sum_remove(m, t, keys.remove(k), c);
        assert(keys.remove(c).remove(k) =~= keys.remove(k).remove(c));
    }
}

/// Two maps that agree on the holdings of `t` over `keys` have the same sum.
pub proof fn lemma_sum_agree(
    m1: Map<(TokenId, AccountId), TokenBalance>,
    m2: Map<(TokenId, AccountId), TokenBalance>,
    t: TokenId,
    keys: Set<(TokenId, AccountId)>,
)
    requires
        keys.finite(),
        forall|k: (TokenId, AccountId)| keys.contains(k) ==> holding(m1, t, k) == holding(m2, t, k),
    ensures
        sum_holdings(m1, t, keys) == sum_holdings(m2, t, keys),
    decreases keys.len(),
{
    if keys.len() > 0 {
        let c = keys.choose();
        lemma_sum_agree(m1, m2, t, keys.remove(c));
    }
}

/// A sum of holdings is never negative.
pub proof fn lemma_sum_nonneg(
    m: Map<(TokenId, AccountId), TokenBalance>,
    t: TokenId,
    keys: Set<(TokenId, AccountId)>,
)
    requires
        keys.finite(),
    ensures
        sum_holdings(m, t, keys) >= 0,
    decreases keys.len(),
{
    if keys.len() > 0 {
        lemma_sum_nonneg(m, t, keys.remove(keys.choose()));
    }
}

/// Writing `v` under `k` changes the total of `t` by the difference between
/// the new and the old holding under `k`.
pub proof fn lemma_total_insert(
    m: Map<(TokenId, AccountId), TokenBalance>,
    t: TokenId,
    k: (TokenId, AccountId),
    v: TokenBalance,
)
    requires
        m.dom().finite(),
    ensures
        token_total(m.insert(k, v), t) == token_total(m, t) - holding(m, t, k) + holding(
            m.insert(k, v),
            t,
            k,
        ),
{
    let m2 = m.insert(k, v);
    if m.contains_key(k) {
        assert(m2.dom() =~= m.dom());
        lemma_sum_remove(m, t, m.dom(), k);
        lemma_sum_remove(m2, t, m.dom(), k);
        lemma_sum_agree(m, m2, t, m.dom().remove(k));
    } else {
        assert(m2.dom() =~= m.dom().insert(k));
        lemma_sum_remove(m2, t, m2.dom(), k);
        assert(m2.dom().remove(k) =~= m.dom());
        lemma_sum_agree(m, m2, t, m.dom());
    }
}

/// Two distinct entries together hold no more of `t` than its total.
pub proof fn lemma_two_holdings_le_total(
    m: Map<(TokenId, AccountId), TokenBalance>,
    t: TokenId,
    k1: (TokenId, AccountId),
    k2: (TokenId, AccountId),
)
    requires
        m.dom().finite(),
        k1 != k2,
    ensures
        holding(m, t, k1) + holding(m, t, k2) <= token_total(m, t),
{
    let d = m.dom();
    if d.contains(k1) {
        lemma_sum_remove(m, t, d, k1);
        if d.contains(k2) {
            lemma_sum_remove(m, t, d.remove(k1), k2);
            lemma_sum_nonneg(m, t, d.remove(k1).remove(k2));
        } else {
            lemma_sum_nonneg(m, t, d.remove(k1));
        }
    } else if d.contains(k2) {
        lemma_sum_remove(m, t, d, k2);
        lemma_sum_nonneg(m, t, d.remove(k2));
    } else {
        lemma_sum_nonneg(m, t, d);
    }
}

} // verus!
