//! Laws relating the ledger's operations, proved from the post-state
//! relations that the operations' own contracts establish. Supply
//! conservation itself is `ledger::lemma_supply_conservation`, backed by the
//! well-formedness clause every operation's contract preserves.

use vstd::prelude::*;

use crate::ledger::{
    approve_updates, batch_updates, blacklist_add_updates, blacklist_remove_updates, burn_updates,
    count_of, mint_updates, pause_updates, transfer_from_updates, transfer_updates,
    unpause_updates, SimpleToken,
};
use crate::types::{AccountId, Balance, Error};

verus! {

/// Zero-sum transfer: a successful `transfer` of `amount` from `caller` to a
/// distinct `to` debits the one and credits the other by exactly `amount`,
/// and leaves the total supply unchanged.
pub proof fn lemma_zero_sum_transfer(pre: SimpleToken, post: SimpleToken, caller: AccountId, to: AccountId, amount: Balance)
    requires
        transfer_updates(pre, post, caller, to, amount),
        caller != to,
    ensures
        post.spec_balance_of(caller) == pre.spec_balance_of(caller) - amount,
        post.spec_balance_of(to) == pre.spec_balance_of(to) + amount,
        post.spec_total_supply() == pre.spec_total_supply(),
{
}

/// Minting `amount` to `to` grows both the total supply and `to`'s balance by
/// exactly `amount`.
pub proof fn lemma_mint_grows(pre: SimpleToken, post: SimpleToken, to: AccountId, amount: Balance)
    requires
        mint_updates(pre, post, to, amount),
    ensures
        post.spec_total_supply() == pre.spec_total_supply() + amount,
        post.spec_balance_of(to) == pre.spec_balance_of(to) + amount,
{
}

/// Burning `amount` by `caller` shrinks both the total supply and `caller`'s
/// balance by exactly `amount`: the mirror image of minting.
pub proof fn lemma_burn_shrinks(pre: SimpleToken, post: SimpleToken, caller: AccountId, amount: Balance)
    requires
        burn_updates(pre, post, caller, amount),
    ensures
        post.spec_total_supply() == pre.spec_total_supply() - amount,
        post.spec_balance_of(caller) == pre.spec_balance_of(caller) - amount,
{
}

/// Blacklisting is idempotent: after adding `address` twice it is listed, and
/// removing an address that was never listed leaves it unlisted.
pub proof fn lemma_blacklist_idempotent(s0: SimpleToken, s1: SimpleToken, s2: SimpleToken, s3: SimpleToken, s4: SimpleToken, address: AccountId)
    requires
        blacklist_add_updates(s0, s1, address),
        blacklist_add_updates(s1, s2, address),
        blacklist_remove_updates(s3, s4, address),
        !s3.spec_blacklisted(address),
    ensures
        s2.spec_blacklisted(address),
        !s4.spec_blacklisted(address),
{
}

/// Allowance decrement: after `owner_acct` approves `spender` for `approved`
/// and `spender` then moves `moved` from `owner_acct` to a distinct `to`,
/// the remaining allowance is exactly `approved - moved` and `to`'s balance
/// grew by exactly `moved`.
pub proof fn lemma_allowance_decrement(s0: SimpleToken, s1: SimpleToken, s2: SimpleToken, owner_acct: AccountId, spender: AccountId, to: AccountId, approved: Balance, moved: Balance)
    requires
        approve_updates(s0, s1, owner_acct, spender, approved),
        transfer_from_updates(s1, s2, spender, owner_acct, to, moved),
        owner_acct != to,
    ensures
        s2.spec_allowance(owner_acct, spender) == approved - moved,
        s2.spec_balance_of(to) == s0.spec_balance_of(to) + moved,
{
}

/// Pause gate: once paused, `transfer`, `transfer_from` and `batch_transfer`
/// all fail with `ContractPaused`, for every caller and argument; `unpause`
/// clears the flag again.
pub proof fn lemma_pause_gate(s0: SimpleToken, s1: SimpleToken, caller: AccountId, from: AccountId, to: AccountId, amount: Balance, recipients: Seq<AccountId>)
    requires
        pause_updates(s0, s1),
    ensures
        s1.transfer_result(caller, to, amount) == Err::<(), Error>(Error::ContractPaused),
        s1.transfer_from_result(caller, from, to, amount) == Err::<(), Error>(
            Error::ContractPaused,
        ),
        s1.batch_result(caller, recipients, amount) == Err::<(), Error>(Error::ContractPaused),
{
}

/// Unpausing restores normal operation: afterwards no transfer-family
/// operation fails with `ContractPaused`; each result is decided by the
/// remaining rules alone.
pub proof fn lemma_unpause_restores(s0: SimpleToken, s1: SimpleToken, caller: AccountId, from: AccountId, to: AccountId, amount: Balance, recipients: Seq<AccountId>)
    requires
        unpause_updates(s0, s1),
    ensures
        !s1.spec_paused(),
        s1.transfer_result(caller, to, amount) != Err::<(), Error>(Error::ContractPaused),
        s1.transfer_from_result(caller, from, to, amount) != Err::<(), Error>(
            Error::ContractPaused,
        ),
        s1.batch_result(caller, recipients, amount) != Err::<(), Error>(Error::ContractPaused),
{
}

/// Ownership gate: a non-owner caller gets `NotOwner` from `mint` and from
/// every administrative operation, while the owner is never refused there.
pub proof fn lemma_ownership_gate(t: SimpleToken, caller: AccountId, amount: Balance)
    ensures
        caller != t.spec_owner() ==> t.mint_result(caller, amount) == Err::<(), Error>(
            Error::NotOwner,
        ),
        caller != t.spec_owner() ==> t.admin_result(caller) == Err::<(), Error>(Error::NotOwner),
        caller == t.spec_owner() ==> t.admin_result(caller) == Ok::<(), Error>(()),
{
}

/// Duplicate recipients: a successful batch transfer to `[r, r]` credits `r`
/// with `2 * amount` and debits the caller by `2 * amount`.
pub proof fn lemma_duplicate_recipients(pre: SimpleToken, post: SimpleToken, caller: AccountId, r: AccountId, amount: Balance)
    requires
        batch_updates(pre, post, caller, seq![r, r], amount),
        r != caller,
    ensures
        post.spec_balance_of(r) == pre.spec_balance_of(r) + 2 * amount,
        post.spec_balance_of(caller) == pre.spec_balance_of(caller) - 2 * amount,
{
    let s = seq![r, r];
    assert(s.drop_last() =~= seq![r]);
    assert(seq![r].drop_last() =~= Seq::<AccountId>::empty());
    assert(count_of(Seq::<AccountId>::empty(), r) == 0);
    assert(count_of(Seq::<AccountId>::empty(), caller) == 0);
    assert(count_of(seq![r], r) == 1);
    assert(count_of(s, r) == 2);
    assert(count_of(seq![r], caller) == 0);
    assert(count_of(s, caller) == 0);
}

} // verus!
