use vstd::prelude::*;
use crate::store::{AllowanceStore, BalanceStore};
use crate::types::{AccountId, Approval, Balance, Error, Event, Transfer};

verus! {

/// A token ledger: metadata fixed at construction, the balance of each
/// account, the allowances between accounts, the total supply, and the
/// notifications that wait for the host to deliver them.
pub struct Erc20 {
    creater: AccountId,
    name: Vec<u8>,
    symbol: Vec<u8>,
    total_supply: Balance,
    balances: BalanceStore,
    allowances: AllowanceStore,
    events: Vec<Event>,
}

/// The effect of one movement of `value` units: `from` (where present) is
/// debited, `to` (where present) is credited, nothing else about balances or
/// metadata changes, each present endpoint adds at most one account to the
/// balance map, and one `Transfer` notification is queued.
pub open spec fn moved(
    pre: Erc20,
    post: Erc20,
    from: Option<AccountId>,
    to: Option<AccountId>,
    value: Balance,
) -> bool {
    &&& forall|a: AccountId|
        #[trigger] post.spec_balance_of(a) == pre.spec_balance_of(a) - (if from == Some(a) {
            value as int
        } else {
            0
        }) + (if to == Some(a) {
            value as int
        } else {
            0
        })
    &&& post.spec_sum_balances() == pre.spec_sum_balances() - (if from is Some {
        value as int
    } else {
        0
    }) + (if to is Some {
        value as int
    } else {
        0
    })
    &&& post.spec_accounts() <= pre.spec_accounts() + endpoints(from, to)
    &&& post.spec_events() == pre.spec_events().push(
        Event::Transfer(Transfer { from, to, value }),
    )
    &&& post.spec_creator() == pre.spec_creator()
    &&& post.spec_name() == pre.spec_name()
    &&& post.spec_symbol() == pre.spec_symbol()
}

/// How many of the two endpoints of a movement are present.
pub open spec fn endpoints(from: Option<AccountId>, to: Option<AccountId>) -> nat {
    (if from is Some {
        1nat
    } else {
        0nat
    }) + (if to is Some {
        1nat
    } else {
        0nat
    })
}

/// Every allowance, and the allowance map's size, is the same in `pre` and `post`.
pub open spec fn same_allowances(pre: Erc20, post: Erc20) -> bool {
    &&& forall|o: AccountId, s: AccountId| #[trigger]
        post.spec_allowance(o, s) == pre.spec_allowance(o, s)
    &&& post.spec_allowance_pairs() == pre.spec_allowance_pairs()
}

/// What `transfer` does: it fails with `InsufficientBalance` and changes
/// nothing where `caller` holds less than `value`, and otherwise moves `value`
/// from `caller` to `to`.
pub open spec fn transfer_post(
    pre: Erc20,
    post: Erc20,
    caller: AccountId,
    to: AccountId,
    value: Balance,
    r: Result<(), Error>,
) -> bool {
    if pre.spec_balance_of(caller) < value {
        r == Err::<(), Error>(Error::InsufficientBalance) && post == pre
    } else {
        &&& r is Ok
        &&& moved(pre, post, Some(caller), Some(to), value)
        &&& same_allowances(pre, post)
        &&& post.spec_total_supply() == pre.spec_total_supply()
    }
}

/// What `transfer_from` does: the allowance of `caller` over `from` is checked
/// first, then the balance of `from`; a failed check changes nothing. On
/// success `value` moves from `from` to `to` and the allowance of `caller` over
/// `from` drops by `value`.
pub open spec fn transfer_from_post(
    pre: Erc20,
    post: Erc20,
    caller: AccountId,
    from: AccountId,
    to: AccountId,
    value: Balance,
    r: Result<(), Error>,
) -> bool {
    if pre.spec_allowance(from, caller) < value {
        r == Err::<(), Error>(Error::InsufficientAllowance) && post == pre
    } else if pre.spec_balance_of(from) < value {
        r == Err::<(), Error>(Error::InsufficientBalance) && post == pre
    } else {
        &&& r is Ok
        &&& moved(pre, post, Some(from), Some(to), value)
        &&& forall|o: AccountId, s: AccountId| #[trigger]
            post.spec_allowance(o, s) == if o == from && s == caller {
                pre.spec_allowance(o, s) - value
            } else {
                pre.spec_allowance(o, s)
            }
        &&& post.spec_allowance_pairs() <= pre.spec_allowance_pairs() + 1
        &&& post.spec_total_supply() == pre.spec_total_supply()
    }
}

impl Erc20 {
    /// Balance of account `a`.
    pub closed spec fn spec_balance_of(&self, a: AccountId) -> int {
        self.balances.spec_get(a)
    }

    /// Amount that `owner` allows `spender` to move.
    pub closed spec fn spec_allowance(&self, owner: AccountId, spender: AccountId) -> int {
        self.allowances.spec_get(owner, spender)
    }

    pub closed spec fn spec_total_supply(&self) -> int {
        self.total_supply as int
    }

    /// Sum of the balances of all accounts.
    pub closed spec fn spec_sum_balances(&self) -> int {
        self.balances.spec_sum()
    }

    /// Number of accounts with an entry in the balance map. A storage map
    /// counts its keys in a `u32`, which bounds how many accounts it can take.
    pub closed spec fn spec_accounts(&self) -> nat {
        self.balances.spec_len()
    }

    /// Number of owner and spender pairs with an entry in the allowance map.
    pub closed spec fn spec_allowance_pairs(&self) -> nat {
        self.allowances.spec_len()
    }

    pub closed spec fn spec_name(&self) -> Seq<u8> {
        self.name@
    }

    pub closed spec fn spec_symbol(&self) -> Seq<u8> {
        self.symbol@
    }

    /// The account that constructed the ledger, the only one that may mint.
    pub closed spec fn spec_creator(&self) -> AccountId {
        self.creater
    }

    /// Notifications queued and not yet taken, oldest first.
    pub closed spec fn spec_events(&self) -> Seq<Event> {
        self.events@
    }

    /// The stores are well formed and the total supply is the sum of all balances.
    pub closed spec fn wf(&self) -> bool {
        &&& self.balances.wf()
        &&& self.balances.spec_sum() == self.total_supply
    }

    /// In a well-formed ledger the total supply is the sum of all balances,
    /// and no balance exceeds it.
    pub proof fn lemma_supply_is_sum(&self, a: AccountId)
        requires
            self.wf(),
        ensures
            self.spec_sum_balances() == self.spec_total_supply(),
            0 <= self.spec_balance_of(a) <= self.spec_total_supply(),
    {
        self.balances.lemma_get_le_sum(a);
    }

    /// A movement stays described by `moved` when only the allowances or the
    /// total supply change afterwards.
    proof fn lemma_moved_frame(
        pre: Erc20,
        mid: Erc20,
        post: Erc20,
        from: Option<AccountId>,
        to: Option<AccountId>,
        value: Balance,
    )
        requires
            moved(pre, mid, from, to, value),
            post.balances == mid.balances,
            post.events == mid.events,
            post.creater == mid.creater,
            post.name == mid.name,
            post.symbol == mid.symbol,
        ensures
            moved(pre, post, from, to, value),
    {
        assert forall|a: AccountId| #[trigger]
            post.spec_balance_of(a) == pre.spec_balance_of(a) - (if from == Some(a) {
                value as int
            } else {
                0
            }) + (if to == Some(a) {
                value as int
            } else {
                0
            }) by {
            assert(mid.spec_balance_of(a) == post.spec_balance_of(a));
        }
    }

    /// A ledger created by `caller`, who holds the whole initial supply.
    pub fn new(caller: AccountId, name: Vec<u8>, symbol: Vec<u8>, total_supply: Balance) -> (r: Self)
        ensures
            r.wf(),
            r.spec_creator() == caller,
            r.spec_name() == name@,
            r.spec_symbol() == symbol@,
            r.spec_total_supply() == total_supply,
            r.spec_accounts() <= 1,
            r.spec_allowance_pairs() == 0,
            forall|a: AccountId| #[trigger]
                r.spec_balance_of(a) == if a == caller {
                    total_supply as int
                } else {
                    0
                },
            forall|o: AccountId, s: AccountId| #[trigger] r.spec_allowance(o, s) == 0,
            r.spec_events() == seq![
                Event::Transfer(Transfer { from: None, to: Some(caller), value: total_supply }),
            ],
    {
        let mut balances = BalanceStore::new();
        balances.set(caller, total_supply);
        let mut events: Vec<Event> = Vec::new();
        events.push(Event::Transfer(Transfer { from: None, to: Some(caller), value: total_supply }));
        let r = Erc20 {
            creater: caller,
            name,
            symbol,
            total_supply,
            balances,
            allowances: AllowanceStore::new(),
            events,
        };
        proof {
            assert(r.spec_events() =~= seq![
                Event::Transfer(Transfer { from: None, to: Some(caller), value: total_supply }),
            ]);
        }
        r
    }

    /// The token's name.
    pub fn name(&self) -> (r: Vec<u8>)
        ensures
            r@ == self.spec_name(),
    {
        let r = self.name.clone();
        proof {
            assert(r@ =~= self.name@);
        }
        r
    }

    /// The token's symbol.
    pub fn symbol(&self) -> (r: Vec<u8>)
        ensures
            r@ == self.spec_symbol(),
    {
        let r = self.symbol.clone();
        proof {
            assert(r@ =~= self.symbol@);
        }
        r
    }

    /// Units in existence.
    pub fn total_supply(&self) -> (r: Balance)
        ensures
            r == self.spec_total_supply(),
    {
        self.total_supply
    }

    /// Balance of `of`; 0 for an account that never held tokens.
    pub fn balance_of(&self, of: AccountId) -> (r: Balance)
        ensures
            r == self.spec_balance_of(of),
    {
        self.balances.get(of)
    }

    /// Amount that `owner` allows `spender` to move; 0 where none was granted.
    pub fn allowance(&self, owner: AccountId, spender: AccountId) -> (r: Balance)
        ensures
            r == self.spec_allowance(owner, spender),
    {
        self.allowances.get(owner, spender)
    }

    /// Moves `value` units out of `from` (where present) into `to` (where
    /// present). A debit larger than the balance fails with
    /// `InsufficientBalance` before anything changes.
    fn transfer_from_to(&mut self, from: Option<AccountId>, to: Option<AccountId>, value: Balance) -> (r:
        Result<(), Error>)
        requires
            old(self).balances.wf(),
            old(self).balances.spec_len() + endpoints(from, to) <= u32::MAX,
            old(self).balances.spec_sum() + (if from is None {
                value as int
            } else {
                0
            }) <= Balance::MAX,
        ensures
            final(self).balances.wf(),
            r is Err <==> (from is Some && old(self).spec_balance_of(from->0) < value),
            r is Err ==> r == Err::<(), Error>(Error::InsufficientBalance) && *final(self) == *old(
                self,
            ),
            r is Ok ==> moved(*old(self), *final(self), from, to, value),
            final(self).balances.spec_len() <= old(self).balances.spec_len() + endpoints(from, to),
            final(self).allowances == old(self).allowances,
            final(self).total_supply == old(self).total_supply,
    {
        let ghost pre = *self;
        if let Some(from_account) = from {
            let from_balance = self.balances.get(from_account);
            if from_balance < value {
                return Err(Error::InsufficientBalance);
            }
            self.balances.set(from_account, from_balance - value);
        }
        if let Some(to_account) = to {
            let to_balance = self.balances.get(to_account);
            proof {
                self.balances.lemma_get_le_sum(to_account);
            }
            self.balances.set(to_account, to_balance + value);
        }
        self.events.push(Event::Transfer(Transfer { from, to, value }));
        proof {
            assert forall|a: AccountId| #[trigger]
                self.spec_balance_of(a) == pre.spec_balance_of(a) - (if from == Some(a) {
                    value as int
                } else {
                    0
                }) + (if to == Some(a) {
                    value as int
                } else {
                    0
                }) by {}
        }
        Ok(())
    }

    /// Moves `value` units from `caller` to `to`.
    pub fn transfer(&mut self, caller: AccountId, to: AccountId, value: Balance) -> (r: Result<
        (),
        Error,
    >)
        requires
            old(self).wf(),
            old(self).spec_accounts() + 2 <= u32::MAX,
        ensures
            final(self).wf(),
            transfer_post(*old(self), *final(self), caller, to, value, r),
    {
        proof {
            self.lemma_supply_is_sum(caller);
        }
        self.transfer_from_to(Some(caller), Some(to), value)
    }

    /// Sets the allowance of `spender` over `caller`'s balance to `value`,
    /// replacing any earlier allowance rather than adding to it. The balance
    /// of `caller` is not consulted.
    pub fn approve(&mut self, caller: AccountId, spender: AccountId, value: Balance) -> (r: Result<
        (),
        Error,
    >)
        requires
            old(self).wf(),
            old(self).spec_allowance_pairs() < u32::MAX,
        ensures
            final(self).wf(),
            r is Ok,
            forall|o: AccountId, s: AccountId| #[trigger]
                final(self).spec_allowance(o, s) == if o == caller && s == spender {
                    value as int
                } else {
                    old(self).spec_allowance(o, s)
                },
            forall|a: AccountId| #[trigger]
                final(self).spec_balance_of(a) == old(self).spec_balance_of(a),
            final(self).spec_sum_balances() == old(self).spec_sum_balances(),
            final(self).spec_accounts() == old(self).spec_accounts(),
            final(self).spec_allowance_pairs() <= old(self).spec_allowance_pairs() + 1,
            final(self).spec_total_supply() == old(self).spec_total_supply(),
            final(self).spec_creator() == old(self).spec_creator(),
            final(self).spec_name() == old(self).spec_name(),
            final(self).spec_symbol() == old(self).spec_symbol(),
            final(self).spec_events() == old(self).spec_events().push(
                Event::Approval(Approval { owner: caller, spender, value }),
            ),
    {
        self.allowances.set(caller, spender, value);
        self.events.push(Event::Approval(Approval { owner: caller, spender, value }));
        Ok(())
    }

    /// Moves `value` units from `from` to `to` on behalf of `caller`, spending
    /// the allowance that `from` granted to `caller`.
    pub fn transfer_from(
        &mut self,
        caller: AccountId,
        from: AccountId,
        to: AccountId,
        value: Balance,
    ) -> (r: Result<(), Error>)
        requires
            old(self).wf(),
            old(self).spec_accounts() + 2 <= u32::MAX,
            old(self).spec_allowance_pairs() < u32::MAX,
        ensures
            final(self).wf(),
            transfer_from_post(*old(self), *final(self), caller, from, to, value, r),
    {
        let ghost pre = *self;
        let allowance = self.allowance(from, caller);
        if allowance < value {
            return Err(Error::InsufficientAllowance);
        }
        proof {
            self.lemma_supply_is_sum(from);
        }
        match self.transfer_from_to(Some(from), Some(to), value) {
            Ok(()) => {},
            Err(e) => {
                return Err(e);
            },
        }
        let ghost mid = *self;
        self.allowances.set(from, caller, allowance - value);
        proof {
            Self::lemma_moved_frame(pre, mid, *self, Some(from), Some(to), value);
        }
        Ok(())
    }

    /// Mints `amount` new units to the creator. Only the creator may call it,
    /// and the total supply must stay within `Balance::MAX`.
    pub fn issue(&mut self, caller: AccountId, amount: Balance) -> (r: Result<(), Error>)
        requires
            old(self).wf(),
            old(self).spec_accounts() < u32::MAX,
        ensures
            final(self).wf(),
            caller != old(self).spec_creator() ==> r == Err::<(), Error>(Error::OnlyForCreater)
                && *final(self) == *old(self),
            caller == old(self).spec_creator() && old(self).spec_total_supply() + amount
                > Balance::MAX ==> r == Err::<(), Error>(Error::Overflow) && *final(self) == *old(
                self,
            ),
            caller == old(self).spec_creator() && old(self).spec_total_supply() + amount
                <= Balance::MAX ==> {
                &&& r is Ok
                &&& moved(*old(self), *final(self), None, Some(caller), amount)
                &&& same_allowances(*old(self), *final(self))
                &&& final(self).spec_total_supply() == old(self).spec_total_supply() + amount
            },
    {
        let ghost pre = *self;
        if caller != self.creater {
            return Err(Error::OnlyForCreater);
        }
        let total_supply = match self.total_supply.checked_add(amount) {
            Some(t) => t,
            None => {
                return Err(Error::Overflow);
            },
        };
        match self.transfer_from_to(None, Some(caller), amount) {
            Ok(()) => {},
            Err(e) => {
                return Err(e);
            },
        }
        let ghost mid = *self;
        self.total_supply = total_supply;
        proof {
            Self::lemma_moved_frame(pre, mid, *self, None, Some(caller), amount);
        }
        Ok(())
    }

    /// Destroys `amount` units held by `caller`.
    pub fn burn(&mut self, caller: AccountId, amount: Balance) -> (r: Result<(), Error>)
        requires
            old(self).wf(),
            old(self).spec_accounts() < u32::MAX,
        ensures
            final(self).wf(),
            old(self).spec_balance_of(caller) < amount ==> r == Err::<(), Error>(
                Error::InsufficientBalance,
            ) && *final(self) == *old(self),
            old(self).spec_balance_of(caller) >= amount ==> {
                &&& r is Ok
                &&& moved(*old(self), *final(self), Some(caller), None, amount)
                &&& same_allowances(*old(self), *final(self))
                &&& final(self).spec_total_supply() == old(self).spec_total_supply() - amount
            },
    {
        let ghost pre = *self;
        match self.transfer_from_to(Some(caller), None, amount) {
            Ok(()) => {},
            Err(e) => {
                return Err(e);
            },
        }
        proof {
            pre.balances.lemma_get_le_sum(caller);
        }
        let ghost mid = *self;
        self.total_supply = self.total_supply - amount;
        proof {
            Self::lemma_moved_frame(pre, mid, *self, Some(caller), None, amount);
        }
        Ok(())
    }

    /// Hands over the queued notifications, oldest first, and empties the queue.
    pub fn take_events(&mut self) -> (r: Vec<Event>)
        requires
            old(self).wf(),
        ensures
            final(self).wf(),
            r@ == old(self).spec_events(),
            final(self).spec_events() == Seq::<Event>::empty(),
            forall|a: AccountId| #[trigger]
                final(self).spec_balance_of(a) == old(self).spec_balance_of(a),
            same_allowances(*old(self), *final(self)),
            final(self).spec_sum_balances() == old(self).spec_sum_balances(),
            final(self).spec_accounts() == old(self).spec_accounts(),
            final(self).spec_total_supply() == old(self).spec_total_supply(),
            final(self).spec_creator() == old(self).spec_creator(),
            final(self).spec_name() == old(self).spec_name(),
            final(self).spec_symbol() == old(self).spec_symbol(),
    {
        let mut taken: Vec<Event> = Vec::new();
        std::mem::swap(&mut taken, &mut self.events);
        taken
    }
}

} // verus!
