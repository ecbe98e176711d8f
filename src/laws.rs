use vstd::prelude::*;
use crate::erc20::{transfer_from_post, transfer_post, Erc20};
use crate::types::{AccountId, Balance, Error};

verus! {

/// `post` follows `pre` by one call of `transfer` or `transfer_from`, whether
/// it succeeded or failed.
pub open spec fn plain_step(pre: Erc20, post: Erc20) -> bool {
    ||| exists|c: AccountId, t: AccountId, v: Balance, r: Result<(), Error>|
        #[trigger] transfer_post(pre, post, c, t, v, r)
    ||| exists|c: AccountId, f: AccountId, t: AccountId, v: Balance, r: Result<(), Error>|
        #[trigger] transfer_from_post(pre, post, c, f, t, v, r)
}

/// One plain or delegated transfer leaves the sum of all balances and the
/// total supply as they were.
pub proof fn lemma_step_conserves(pre: Erc20, post: Erc20)
    requires
        plain_step(pre, post),
    ensures
        post.spec_sum_balances() == pre.spec_sum_balances(),
        post.spec_total_supply() == pre.spec_total_supply(),
{
    if exists|c: AccountId, t: AccountId, v: Balance, r: Result<(), Error>|
        #[trigger] transfer_post(pre, post, c, t, v, r) {
        let (c, t, v, r) = choose|c: AccountId, t: AccountId, v: Balance, r: Result<(), Error>|
            #[trigger] transfer_post(pre, post, c, t, v, r);
        assert(transfer_post(pre, post, c, t, v, r));
    } else {
        let (c, f, t, v, r) = choose|
            c: AccountId,
            f: AccountId,
            t: AccountId,
            v: Balance,
            r: Result<(), Error>,
        | #[trigger] transfer_from_post(pre, post, c, f, t, v, r);
        assert(transfer_from_post(pre, post, c, f, t, v, r));
    }
}

/// Along any run of plain and delegated transfers (no mint, no burn) the sum
/// of all balances stays what it was at the start, and so does the total
/// supply.
pub proof fn lemma_conservation(states: Seq<Erc20>)
    requires
        states.len() > 0,
        forall|i: int| 0 <= i < states.len() - 1 ==> plain_step(#[trigger] states[i], states[i + 1]),
    ensures
        states.last().spec_sum_balances() == states[0].spec_sum_balances(),
        states.last().spec_total_supply() == states[0].spec_total_supply(),
    decreases states.len(),
{
    if states.len() > 1 {
        let prefix = states.drop_last();
        assert forall|i: int| 0 <= i < prefix.len() - 1 implies plain_step(
            #[trigger] prefix[i],
            prefix[i + 1],
        ) by {
            assert(prefix[i] == states[i] && prefix[i + 1] == states[i + 1]);
            assert(plain_step(states[i], states[i + 1]));
        }
        lemma_conservation(prefix);
        let k = states.len() - 2;
        assert(plain_step(states[k], states[k + 1]));
        lemma_step_conserves(states[k], states[k + 1]);
        assert(prefix.last() == states[k]);
    }
}

} // verus!
