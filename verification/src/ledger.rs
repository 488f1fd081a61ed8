//! The ledger itself: token state and every state-transition rule. Each
//! operation takes the invoking account as an explicit `caller` parameter,
//! returns the exact error the rules dictate (or `Ok`), appends its event
//! records to the internal log on success, and leaves the whole state
//! untouched on failure.

use vstd::prelude::*;

use crate::store::{
    allow_keys_unique, allow_value_of, allow_get, allow_set, keys_unique, lemma_value_le_sum,
    map_get, map_set, nodup, set_contains, set_insert, set_remove, sum_of, value_of,
};
use crate::types::{
    approval_event, mint_event, transfer_event, AccountId, Approval, Balance, Error, Event, Mint,
    Transfer,
};

verus! {

/// A fungible-token ledger: balances, total supply, allowances, the owner,
/// a pause flag, a blacklist, and the log of emitted events.
pub struct SimpleToken {
    balances: Vec<(AccountId, Balance)>,
    owner: AccountId,
    total_supply: Balance,
    allowances: Vec<(AccountId, AccountId, Balance)>,
    paused: bool,
    blacklist: Vec<AccountId>,
    events: Vec<Event>,
}

impl SimpleToken {
    /// The stored balance entries, each account at most once.
    pub closed spec fn balance_entries(self) -> Seq<(AccountId, Balance)> {
        self.balances@
    }

    /// The balance of `a`: its stored entry, or zero.
    pub open spec fn spec_balance_of(self, a: AccountId) -> Balance {
        value_of(self.balance_entries(), a)
    }

    /// The total token supply.
    pub closed spec fn spec_total_supply(self) -> Balance {
        self.total_supply
    }

    /// How much `spender` may move out of `owner`'s balance.
    pub closed spec fn spec_allowance(self, owner: AccountId, spender: AccountId) -> Balance {
        allow_value_of(self.allowances@, owner, spender)
    }

    /// Whether transfer-family operations are currently disabled.
    pub closed spec fn spec_paused(self) -> bool {
        self.paused
    }

    /// Whether `a` is barred from transfer-family operations.
    pub closed spec fn spec_blacklisted(self, a: AccountId) -> bool {
        self.blacklist@.contains(a)
    }

    /// The account that constructed the ledger; immutable afterwards.
    pub closed spec fn spec_owner(self) -> AccountId {
        self.owner
    }

    /// The events emitted so far, oldest first.
    pub closed spec fn spec_events(self) -> Seq<Event> {
        self.events@
    }

    /// Well-formedness: each mapping keyed at most once per key, and the sum
    /// of all stored balances equal to the total supply. Established by the
    /// constructor and preserved by every operation.
    pub closed spec fn wf(self) -> bool {
        &&& keys_unique(self.balances@)
        &&& allow_keys_unique(self.allowances@)
        &&& nodup(self.blacklist@)
        &&& sum_of(self.balances@) == self.total_supply
    }

    /// Which result `mint(caller, _, amount)` returns: owner gate first, then
    /// the supply-overflow check.
    pub open spec fn mint_result(self, caller: AccountId, amount: Balance) -> Result<(), Error> {
        if caller != self.spec_owner() {
            Err(Error::NotOwner)
        } else if self.spec_total_supply() + amount > Balance::MAX {
            Err(Error::InvalidAmount)
        } else {
            Ok(())
        }
    }

    /// Which result `transfer(caller, to, amount)` returns, with the checks
    /// in their observable order: pause, blacklist, zero amount, balance.
    pub open spec fn transfer_result(self, caller: AccountId, to: AccountId, amount: Balance) -> Result<(), Error> {
        if self.spec_paused() {
            Err(Error::ContractPaused)
        } else if self.spec_blacklisted(caller) || self.spec_blacklisted(to) {
            Err(Error::AddressBlacklisted)
        } else if amount == 0 {
            Err(Error::InvalidAmount)
        } else if self.spec_balance_of(caller) < amount {
            Err(Error::InsufficientBalance)
        } else {
            Ok(())
        }
    }

    /// Which result `transfer_from(caller, from, to, amount)` returns: pause,
    /// blacklist of `from` and `to` (not of the spender), zero amount,
    /// allowance, then balance.
    pub open spec fn transfer_from_result(self, caller: AccountId, from: AccountId, to: AccountId, amount: Balance) -> Result<(), Error> {
        if self.spec_paused() {
            Err(Error::ContractPaused)
        } else if self.spec_blacklisted(from) || self.spec_blacklisted(to) {
            Err(Error::AddressBlacklisted)
        } else if amount == 0 {
            Err(Error::InvalidAmount)
        } else if self.spec_allowance(from, caller) < amount {
            Err(Error::InsufficientAllowance)
        } else if self.spec_balance_of(from) < amount {
            Err(Error::InsufficientBalance)
        } else {
            Ok(())
        }
    }

    /// Which result `burn(caller, amount)` returns: zero amount, then
    /// balance. Burn is gated by neither pause nor blacklist.
    pub open spec fn burn_result(self, caller: AccountId, amount: Balance) -> Result<(), Error> {
        if amount == 0 {
            Err(Error::InvalidAmount)
        } else if self.spec_balance_of(caller) < amount {
            Err(Error::InsufficientBalance)
        } else {
            Ok(())
        }
    }

    /// Which result the owner-gated administrative operations (`pause`,
    /// `unpause`, `add_to_blacklist`, `remove_from_blacklist`) return.
    pub open spec fn admin_result(self, caller: AccountId) -> Result<(), Error> {
        if caller != self.spec_owner() {
            Err(Error::NotOwner)
        } else {
            Ok(())
        }
    }

    /// Which result `batch_transfer(caller, recipients, amount)` returns:
    /// pause, caller blacklist, any recipient blacklisted, zero amount,
    /// overflow of the required total (reported as `InsufficientBalance`),
    /// then balance against that total.
    pub open spec fn batch_result(self, caller: AccountId, recipients: Seq<AccountId>, amount: Balance) -> Result<(), Error> {
        if self.spec_paused() {
            Err(Error::ContractPaused)
        } else if self.spec_blacklisted(caller) {
            Err(Error::AddressBlacklisted)
        } else if exists|i: int| 0 <= i < recipients.len() && self.spec_blacklisted(recipients[i]) {
            Err(Error::AddressBlacklisted)
        } else if amount == 0 {
            Err(Error::InvalidAmount)
        } else if amount * recipients.len() > Balance::MAX {
            Err(Error::InsufficientBalance)
        } else if self.spec_balance_of(caller) < amount * recipients.len() {
            Err(Error::InsufficientBalance)
        } else {
            Ok(())
        }
    }

    /// Creates the ledger, capturing `caller` as its owner, with zero supply,
    /// no balances, no allowances, not paused, and an empty blacklist.
    pub fn new(caller: AccountId) -> (t: SimpleToken)
        ensures
            t.wf(),
            t.spec_owner() == caller,
            t.spec_total_supply() == 0,
            forall|a: AccountId| t.spec_balance_of(a) == 0,
            forall|o: AccountId, s: AccountId| t.spec_allowance(o, s) == 0,
            !t.spec_paused(),
            forall|a: AccountId| !t.spec_blacklisted(a),
            t.spec_events() == Seq::<Event>::empty(),
    {
        let t = SimpleToken {
            balances: Vec::new(),
            owner: caller,
            total_supply: 0,
            allowances: Vec::new(),
            paused: false,
            blacklist: Vec::new(),
            events: Vec::new(),
        };
        proof {
            assert(t.events@ =~= Seq::<Event>::empty());
            assert forall|a: AccountId| t.spec_balance_of(a) == 0 by {
                assert(t.balances@.len() == 0);
            }
            assert forall|o: AccountId, s: AccountId| t.spec_allowance(o, s) == 0 by {
                assert(t.allowances@.len() == 0);
            }
        }
        t
    }

    /// The stored balance of `account`, or zero.
    pub fn balance_of(&self, account: AccountId) -> (r: Balance)
        ensures
            r == self.spec_balance_of(account),
    {
        map_get(&self.balances, account)
    }

    /// The total token supply.
    pub fn total_supply(&self) -> (r: Balance)
        ensures
            r == self.spec_total_supply(),
    {
        self.total_supply
    }

    /// The stored allowance of `spender` for `owner`, or zero.
    pub fn allowance(&self, owner: AccountId, spender: AccountId) -> (r: Balance)
        ensures
            r == self.spec_allowance(owner, spender),
    {
        allow_get(&self.allowances, owner, spender)
    }

    /// Whether the ledger is paused.
    pub fn is_paused(&self) -> (r: bool)
        ensures
            r == self.spec_paused(),
    {
        self.paused
    }

    /// Whether `address` is blacklisted.
    pub fn is_blacklisted(&self, address: AccountId) -> (r: bool)
        ensures
            r == self.spec_blacklisted(address),
    {
        set_contains(&self.blacklist, address)
    }

    /// The events emitted so far, oldest first.
    pub fn events(&self) -> (r: &Vec<Event>)
        ensures
            r@ == self.spec_events(),
    {
        &self.events
    }

    /// Mints `amount` tokens to `to`. Owner-gated; a mint that would push the
    /// supply past the representable maximum is rejected. A zero mint is
    /// permitted and still emits its events.
    pub fn mint(&mut self, caller: AccountId, to: AccountId, amount: Balance) -> (r: Result<(), Error>)
        requires
            old(self).wf(),
        ensures
            final(self).wf(),
            r == old(self).mint_result(caller, amount),
            r is Err ==> *final(self) == *old(self),
            r is Ok ==> mint_updates(*old(self), *final(self), to, amount),
    {
        if caller != self.owner {
            return Err(Error::NotOwner);
        }
        if amount > Balance::MAX - self.total_supply {
            return Err(Error::InvalidAmount);
        }
        let current_balance = map_get(&self.balances, to);
        proof {
            lemma_value_le_sum(self.balances@, to);
        }
        map_set(&mut self.balances, to, current_balance + amount);
        self.total_supply = self.total_supply + amount;
        self.events.push(Event::Mint(Mint { to, value: amount }));
        self.events.push(Event::Transfer(Transfer { from: None, to: Some(to), value: amount }));
        Ok(())
    }

    /// Moves `amount` tokens from `caller` to `to`. Gated by pause and by the
    /// blacklist on both ends; rejects a zero amount and an insufficient
    /// balance; the supply never changes.
    pub fn transfer(&mut self, caller: AccountId, to: AccountId, amount: Balance) -> (r: Result<(), Error>)
        requires
            old(self).wf(),
        ensures
            final(self).wf(),
            r == old(self).transfer_result(caller, to, amount),
            r is Err ==> *final(self) == *old(self),
            r is Ok ==> transfer_updates(*old(self), *final(self), caller, to, amount),
    {
        if self.paused {
            return Err(Error::ContractPaused);
        }
        if set_contains(&self.blacklist, caller) || set_contains(&self.blacklist, to) {
            return Err(Error::AddressBlacklisted);
        }
        if amount == 0 {
            return Err(Error::InvalidAmount);
        }
        let caller_balance = map_get(&self.balances, caller);
        if caller_balance < amount {
            return Err(Error::InsufficientBalance);
        }
        map_set(&mut self.balances, caller, caller_balance - amount);
        let receiver_balance = map_get(&self.balances, to);
        proof {
            lemma_value_le_sum(self.balances@, to);
        }
        map_set(&mut self.balances, to, receiver_balance + amount);
        self.events.push(
            Event::Transfer(Transfer { from: Some(caller), to: Some(to), value: amount }),
        );
        Ok(())
    }

    /// Overwrites the allowance of (`caller`, `spender`) with `amount`.
    /// Always permitted: no pause, blacklist, or zero-amount gate applies.
    pub fn approve(&mut self, caller: AccountId, spender: AccountId, amount: Balance) -> (r: Result<(), Error>)
        requires
            old(self).wf(),
        ensures
            final(self).wf(),
            r == Ok::<(), Error>(()),
            approve_updates(*old(self), *final(self), caller, spender, amount),
    {
        allow_set(&mut self.allowances, caller, spender, amount);
        self.events.push(Event::Approval(Approval { owner: caller, spender, value: amount }));
        Ok(())
    }

    /// Moves `amount` tokens from `from` to `to` on the strength of the
    /// allowance `from` granted to `caller`, debiting that allowance.
    pub fn transfer_from(&mut self, caller: AccountId, from: AccountId, to: AccountId, amount: Balance) -> (r: Result<(), Error>)
        requires
            old(self).wf(),
        ensures
            final(self).wf(),
            r == old(self).transfer_from_result(caller, from, to, amount),
            r is Err ==> *final(self) == *old(self),
            r is Ok ==> transfer_from_updates(*old(self), *final(self), caller, from, to, amount),
    {
        if self.paused {
            return Err(Error::ContractPaused);
        }
        if set_contains(&self.blacklist, from) || set_contains(&self.blacklist, to) {
            return Err(Error::AddressBlacklisted);
        }
        if amount == 0 {
            return Err(Error::InvalidAmount);
        }
        let granted = allow_get(&self.allowances, from, caller);
        if granted < amount {
            return Err(Error::InsufficientAllowance);
        }
        let from_balance = map_get(&self.balances, from);
        if from_balance < amount {
            return Err(Error::InsufficientBalance);
        }
        allow_set(&mut self.allowances, from, caller, granted - amount);
        map_set(&mut self.balances, from, from_balance - amount);
        let to_balance = map_get(&self.balances, to);
        proof {
            lemma_value_le_sum(self.balances@, to);
        }
        map_set(&mut self.balances, to, to_balance + amount);
        self.events.push(
            Event::Transfer(Transfer { from: Some(from), to: Some(to), value: amount }),
        );
        Ok(())
    }

    /// Destroys `amount` tokens of `caller`, shrinking the supply. Gated by
    /// neither pause nor blacklist.
    pub fn burn(&mut self, caller: AccountId, amount: Balance) -> (r: Result<(), Error>)
        requires
            old(self).wf(),
        ensures
            final(self).wf(),
            r == old(self).burn_result(caller, amount),
            r is Err ==> *final(self) == *old(self),
            r is Ok ==> burn_updates(*old(self), *final(self), caller, amount),
    {
        if amount == 0 {
            return Err(Error::InvalidAmount);
        }
        let current_balance = map_get(&self.balances, caller);
        if current_balance < amount {
            return Err(Error::InsufficientBalance);
        }
        proof {
            lemma_value_le_sum(self.balances@, caller);
        }
        map_set(&mut self.balances, caller, current_balance - amount);
        self.total_supply = self.total_supply - amount;
        self.events.push(Event::Transfer(Transfer { from: Some(caller), to: None, value: amount }));
        Ok(())
    }

    /// Disables transfer-family operations. Owner-gated; emits no event.
    pub fn pause(&mut self, caller: AccountId) -> (r: Result<(), Error>)
        requires
            old(self).wf(),
        ensures
            final(self).wf(),
            r == old(self).admin_result(caller),
            r is Err ==> *final(self) == *old(self),
            r is Ok ==> pause_updates(*old(self), *final(self)),
    {
        if caller != self.owner {
            return Err(Error::NotOwner);
        }
        self.paused = true;
        Ok(())
    }

    /// Re-enables transfer-family operations. Owner-gated; emits no event.
    pub fn unpause(&mut self, caller: AccountId) -> (r: Result<(), Error>)
        requires
            old(self).wf(),
        ensures
            final(self).wf(),
            r == old(self).admin_result(caller),
            r is Err ==> *final(self) == *old(self),
            r is Ok ==> unpause_updates(*old(self), *final(self)),
    {
        if caller != self.owner {
            return Err(Error::NotOwner);
        }
        self.paused = false;
        Ok(())
    }

    /// Bars `address` from transfer-family operations. Owner-gated and
    /// idempotent; emits no event.
    pub fn add_to_blacklist(&mut self, caller: AccountId, address: AccountId) -> (r: Result<(), Error>)
        requires
            old(self).wf(),
        ensures
            final(self).wf(),
            r == old(self).admin_result(caller),
            r is Err ==> *final(self) == *old(self),
            r is Ok ==> blacklist_add_updates(*old(self), *final(self), address),
    {
        if caller != self.owner {
            return Err(Error::NotOwner);
        }
        set_insert(&mut self.blacklist, address);
        Ok(())
    }

    /// Transfers `amount` tokens from `caller` to every listed recipient, in
    /// order, all or nothing. A recipient listed twice is credited twice. An
    /// overflow of the required total is reported as `InsufficientBalance`,
    /// as is a balance below that total.
    pub fn batch_transfer(&mut self, caller: AccountId, recipients: Vec<AccountId>, amount: Balance) -> (r: Result<(), Error>)
        requires
            old(self).wf(),
        ensures
            final(self).wf(),
            r == old(self).batch_result(caller, recipients@, amount),
            r is Err ==> *final(self) == *old(self),
            r is Ok ==> batch_updates(*old(self), *final(self), caller, recipients@, amount),
    {
        if self.paused {
            return Err(Error::ContractPaused);
        }
        if set_contains(&self.blacklist, caller) {
            return Err(Error::AddressBlacklisted);
        }
        let n = recipients.len();
        let mut i: usize = 0;
        while i < n
            invariant
                i <= n,
                n == recipients@.len(),
                *self == *old(self),
                old(self).wf(),
                !self.spec_paused(),
                !self.spec_blacklisted(caller),
                forall|k: int| 0 <= k < i ==> !self.spec_blacklisted(recipients@[k]),
            decreases n - i,
        {
            if set_contains(&self.blacklist, recipients[i]) {
                return Err(Error::AddressBlacklisted);
            }
            i = i + 1;
        }
        if amount == 0 {
            return Err(Error::InvalidAmount);
        }
        let total_amount = match amount.checked_mul(n as u128) {
            Some(t) => t,
            None => {
                return Err(Error::InsufficientBalance);
            },
        };
        let caller_balance = map_get(&self.balances, caller);
        if caller_balance < total_amount {
            return Err(Error::InsufficientBalance);
        }
        map_set(&mut self.balances, caller, caller_balance - total_amount);
        proof {
            assert(recipients@.take(0) =~= Seq::<AccountId>::empty());
            assert(self.events@ =~= old(self).spec_events() + Seq::new(
                0,
                |k: int| transfer_event(Some(caller), Some(recipients@[k]), amount),
            ));
        }
        let mut j: usize = 0;
        while j < n
            invariant
                j <= n,
                n == recipients@.len(),
                old(self).wf(),
                total_amount == amount * n,
                keys_unique(self.balances@),
                self.owner == old(self).owner,
                self.paused == old(self).paused,
                self.total_supply == old(self).total_supply,
                self.blacklist == old(self).blacklist,
                self.allowances == old(self).allowances,
                sum_of(self.balance_entries()) == old(self).spec_total_supply() - total_amount + j
                    * (amount as int),
                forall|a: AccountId|
                    self.spec_balance_of(a) == old(self).spec_balance_of(a) - (if a == caller {
                        total_amount as int
                    } else {
                        0
                    }) + amount * count_of(recipients@.take(j as int), a),
                self.spec_events() == old(self).spec_events() + Seq::new(
                    j as nat,
                    |k: int| transfer_event(Some(caller), Some(recipients@[k]), amount),
                ),
            decreases n - j,
        {
            let recipient = recipients[j];
            let recipient_balance = map_get(&self.balances, recipient);
            proof {
                lemma_value_le_sum(self.balance_entries(), recipient);
                assert((j as int + 1) * (amount as int) <= (n as int) * (amount as int))
                    by (nonlinear_arith)
                    requires
                        0 <= j as int + 1 <= n as int,
                        amount as int >= 0,
                ;
                assert((j as int + 1) * (amount as int) == (j as int) * (amount as int) + (
                amount as int)) by (nonlinear_arith);
                assert((n as int) * (amount as int) == (amount as int) * (n as int))
                    by (nonlinear_arith);
            }
            let ghost prior = *self;
            map_set(&mut self.balances, recipient, recipient_balance + amount);
            self.events.push(
                Event::Transfer(Transfer { from: Some(caller), to: Some(recipient), value: amount }),
            );
            proof {
                assert(recipients@.take(j as int + 1).drop_last() =~= recipients@.take(j as int));
                assert(recipients@.take(j as int + 1).last() == recipients@[j as int]);
                assert forall|a: AccountId|
                    self.spec_balance_of(a) == old(self).spec_balance_of(a) - (if a == caller {
                        total_amount as int
                    } else {
                        0
                    }) + amount * count_of(recipients@.take(j as int + 1), a) by {
                    let c = count_of(recipients@.take(j as int), a);
                    assert(prior.spec_balance_of(a) == old(self).spec_balance_of(a) - (if a
                        == caller {
                        total_amount as int
                    } else {
                        0
                    }) + amount * c);
                    assert(count_of(recipients@.take(j as int + 1), a) == c + (if a == recipient {
                        1int
                    } else {
                        0int
                    }));
                    if a == recipient {
                        assert(self.spec_balance_of(a) == prior.spec_balance_of(a) + amount);
                        assert((amount as int) * (c + 1) == (amount as int) * c + (amount as int))
                            by (nonlinear_arith);
                    } else {
                        assert(self.spec_balance_of(a) == prior.spec_balance_of(a));
                    }
                }
                assert(self.spec_events() =~= old(self).spec_events() + Seq::new(
                    (j + 1) as nat,
                    |k: int| transfer_event(Some(caller), Some(recipients@[k]), amount),
                ));
            }
            j = j + 1;
        }
        proof {
            assert((n as int) * (amount as int) == (amount as int) * (n as int))
                by (nonlinear_arith);
            assert(recipients@.take(n as int) =~= recipients@);
            assert(self.spec_events() =~= old(self).spec_events() + batch_events(
                caller,
                recipients@,
                amount,
            ));
        }
        Ok(())
    }

    /// Readmits `address` to transfer-family operations. Owner-gated; removing
    /// a never-listed address is a no-op success. Emits no event.
    pub fn remove_from_blacklist(&mut self, caller: AccountId, address: AccountId) -> (r: Result<(), Error>)
        requires
            old(self).wf(),
        ensures
            final(self).wf(),
            r == old(self).admin_result(caller),
            r is Err ==> *final(self) == *old(self),
            r is Ok ==> blacklist_remove_updates(*old(self), *final(self), address),
    {
        if caller != self.owner {
            return Err(Error::NotOwner);
        }
        set_remove(&mut self.blacklist, address);
        Ok(())
    }
}

/// The owner, the pause flag, and the blacklist are the same in `post` as in
/// `pre`.
pub open spec fn admin_unchanged(pre: SimpleToken, post: SimpleToken) -> bool {
    &&& post.spec_owner() == pre.spec_owner()
    &&& post.spec_paused() == pre.spec_paused()
    &&& forall|a: AccountId| post.spec_blacklisted(a) == pre.spec_blacklisted(a)
}

/// Every allowance is the same in `post` as in `pre`.
pub open spec fn allowances_unchanged(pre: SimpleToken, post: SimpleToken) -> bool {
    forall|o: AccountId, s: AccountId| post.spec_allowance(o, s) == pre.spec_allowance(o, s)
}

/// Every balance and the total supply are the same in `post` as in `pre`.
pub open spec fn balances_unchanged(pre: SimpleToken, post: SimpleToken) -> bool {
    &&& forall|a: AccountId| post.spec_balance_of(a) == pre.spec_balance_of(a)
    &&& post.spec_total_supply() == pre.spec_total_supply()
}

/// The balance of `a` after `amount` tokens moved from `caller` to `to`:
/// debited at `caller`, credited at `to`, and untouched anywhere else (a
/// move to oneself nets to no change).
pub open spec fn balance_after_move(pre: SimpleToken, caller: AccountId, to: AccountId, amount: Balance, a: AccountId) -> int {
    pre.spec_balance_of(a) - (if a == caller {
        amount as int
    } else {
        0
    }) + (if a == to {
        amount as int
    } else {
        0
    })
}

/// Post-state of a successful `transfer`: `amount` moved from `caller` to
/// `to`, supply, administrative state and allowances untouched, one transfer
/// event appended.
pub open spec fn transfer_updates(pre: SimpleToken, post: SimpleToken, caller: AccountId, to: AccountId, amount: Balance) -> bool {
    &&& forall|a: AccountId| post.spec_balance_of(a) == balance_after_move(pre, caller, to, amount, a)
    &&& post.spec_total_supply() == pre.spec_total_supply()
    &&& admin_unchanged(pre, post)
    &&& allowances_unchanged(pre, post)
    &&& post.spec_events() == pre.spec_events().push(
        transfer_event(Some(caller), Some(to), amount),
    )
}

/// Post-state of a successful `transfer_from` invoked by `spender`: `amount`
/// moved from `from` to `to`, the allowance of (`from`, `spender`) debited by
/// `amount`, everything else untouched, one transfer event appended.
pub open spec fn transfer_from_updates(pre: SimpleToken, post: SimpleToken, spender: AccountId, from: AccountId, to: AccountId, amount: Balance) -> bool {
    &&& forall|a: AccountId| post.spec_balance_of(a) == balance_after_move(pre, from, to, amount, a)
    &&& post.spec_total_supply() == pre.spec_total_supply()
    &&& admin_unchanged(pre, post)
    &&& forall|o: AccountId, s: AccountId|
        post.spec_allowance(o, s) == pre.spec_allowance(o, s) - (if o == from && s == spender {
            amount as int
        } else {
            0
        })
    &&& post.spec_events() == pre.spec_events().push(transfer_event(Some(from), Some(to), amount))
}

/// Post-state of a successful `mint`: `to` credited with `amount`, the supply
/// grown by `amount`, everything else untouched, a mint event and a transfer
/// event from "no account" appended.
pub open spec fn mint_updates(pre: SimpleToken, post: SimpleToken, to: AccountId, amount: Balance) -> bool {
    &&& forall|a: AccountId|
        post.spec_balance_of(a) == pre.spec_balance_of(a) + (if a == to {
            amount as int
        } else {
            0
        })
    &&& post.spec_total_supply() == pre.spec_total_supply() + amount
    &&& admin_unchanged(pre, post)
    &&& allowances_unchanged(pre, post)
    &&& post.spec_events() == pre.spec_events().push(mint_event(to, amount)).push(
        transfer_event(None, Some(to), amount),
    )
}

/// Post-state of a successful `burn` by `caller`: its balance and the supply
/// both shrunk by `amount`, everything else untouched, a transfer event to
/// "no account" appended.
pub open spec fn burn_updates(pre: SimpleToken, post: SimpleToken, caller: AccountId, amount: Balance) -> bool {
    &&& forall|a: AccountId|
        post.spec_balance_of(a) == pre.spec_balance_of(a) - (if a == caller {
            amount as int
        } else {
            0
        })
    &&& post.spec_total_supply() == pre.spec_total_supply() - amount
    &&& admin_unchanged(pre, post)
    &&& allowances_unchanged(pre, post)
    &&& post.spec_events() == pre.spec_events().push(transfer_event(Some(caller), None, amount))
}

/// Post-state of `approve` by `caller`: the allowance of (`caller`,
/// `spender`) overwritten with `amount`, everything else untouched, one
/// approval event appended.
pub open spec fn approve_updates(pre: SimpleToken, post: SimpleToken, caller: AccountId, spender: AccountId, amount: Balance) -> bool {
    &&& forall|o: AccountId, s: AccountId|
        post.spec_allowance(o, s) == (if o == caller && s == spender {
            amount
        } else {
            pre.spec_allowance(o, s)
        })
    &&& balances_unchanged(pre, post)
    &&& admin_unchanged(pre, post)
    &&& post.spec_events() == pre.spec_events().push(approval_event(caller, spender, amount))
}

/// How many times `a` occurs in `s`.
pub open spec fn count_of(s: Seq<AccountId>, a: AccountId) -> int
    decreases s.len(),
{
    if s.len() == 0 {
        0
    } else {
        count_of(s.drop_last(), a) + (if s.last() == a {
            1int
        } else {
            0int
        })
    }
}

/// The transfer events a successful batch transfer appends: one per
/// recipient, in the recipients' order.
pub open spec fn batch_events(caller: AccountId, recipients: Seq<AccountId>, amount: Balance) -> Seq<Event> {
    Seq::new(
        recipients.len(),
        |i: int| transfer_event(Some(caller), Some(recipients[i]), amount),
    )
}

/// Post-state of a successful `batch_transfer`: the caller debited with
/// `amount` per listed recipient, each account credited with `amount` per
/// occurrence among the recipients (a duplicate is credited once per
/// occurrence), the supply and everything else untouched, and one transfer
/// event appended per recipient in order.
pub open spec fn batch_updates(pre: SimpleToken, post: SimpleToken, caller: AccountId, recipients: Seq<AccountId>, amount: Balance) -> bool {
    &&& forall|a: AccountId|
        post.spec_balance_of(a) == pre.spec_balance_of(a) - (if a == caller {
            amount * recipients.len()
        } else {
            0
        }) + amount * count_of(recipients, a)
    &&& post.spec_total_supply() == pre.spec_total_supply()
    &&& admin_unchanged(pre, post)
    &&& allowances_unchanged(pre, post)
    &&& post.spec_events() == pre.spec_events() + batch_events(caller, recipients, amount)
}

/// Post-state of a successful `pause`: the flag set, everything else
/// untouched, no event emitted.
pub open spec fn pause_updates(pre: SimpleToken, post: SimpleToken) -> bool {
    &&& post.spec_paused()
    &&& post.spec_owner() == pre.spec_owner()
    &&& forall|a: AccountId| post.spec_blacklisted(a) == pre.spec_blacklisted(a)
    &&& balances_unchanged(pre, post)
    &&& allowances_unchanged(pre, post)
    &&& post.spec_events() == pre.spec_events()
}

/// Post-state of a successful `unpause`: the flag cleared, everything else
/// untouched, no event emitted.
pub open spec fn unpause_updates(pre: SimpleToken, post: SimpleToken) -> bool {
    &&& !post.spec_paused()
    &&& post.spec_owner() == pre.spec_owner()
    &&& forall|a: AccountId| post.spec_blacklisted(a) == pre.spec_blacklisted(a)
    &&& balances_unchanged(pre, post)
    &&& allowances_unchanged(pre, post)
    &&& post.spec_events() == pre.spec_events()
}

/// Post-state of a successful `add_to_blacklist`: `address` listed, every
/// other membership and everything else untouched, no event emitted.
pub open spec fn blacklist_add_updates(pre: SimpleToken, post: SimpleToken, address: AccountId) -> bool {
    &&& post.spec_blacklisted(address)
    &&& forall|b: AccountId| b != address ==> post.spec_blacklisted(b) == pre.spec_blacklisted(b)
    &&& post.spec_owner() == pre.spec_owner()
    &&& post.spec_paused() == pre.spec_paused()
    &&& balances_unchanged(pre, post)
    &&& allowances_unchanged(pre, post)
    &&& post.spec_events() == pre.spec_events()
}

/// Post-state of a successful `remove_from_blacklist`: `address` unlisted,
/// every other membership and everything else untouched, no event emitted.
pub open spec fn blacklist_remove_updates(pre: SimpleToken, post: SimpleToken, address: AccountId) -> bool {
    &&& !post.spec_blacklisted(address)
    &&& forall|b: AccountId| b != address ==> post.spec_blacklisted(b) == pre.spec_blacklisted(b)
    &&& post.spec_owner() == pre.spec_owner()
    &&& post.spec_paused() == pre.spec_paused()
    &&& balances_unchanged(pre, post)
    &&& allowances_unchanged(pre, post)
    &&& post.spec_events() == pre.spec_events()
}

/// The sum of all stored balances always equals the total supply: supply is
/// conserved at every observation point of a well-formed ledger.
pub proof fn lemma_supply_conservation(t: SimpleToken)
    requires
        t.wf(),
    ensures
        sum_of(t.balance_entries()) == t.spec_total_supply(),
{
}

/// No single balance can exceed the total supply.
pub proof fn lemma_balance_bounded(t: SimpleToken, a: AccountId)
    requires
        t.wf(),
    ensures
        t.spec_balance_of(a) <= t.spec_total_supply(),
{
    lemma_value_le_sum(t.balance_entries(), a);
}

} // verus!
