use simple_token::{Error, Event, SimpleToken, Transfer};

const OWNER: u64 = 1;

/// A ledger owned by `OWNER` with `amount` freshly minted to `account`.
fn funded(account: u64, amount: u128) -> SimpleToken {
    let mut t = SimpleToken::new(OWNER);
    assert_eq!(t.mint(OWNER, account, amount), Ok(()));
    t
}

#[test]
fn pause_gates_all_transfer_family_operations() {
    let mut t = funded(2, 100);
    assert_eq!(t.approve(2, 3, 50), Ok(()));
    assert_eq!(t.pause(OWNER), Ok(()));
    assert!(t.is_paused());
    assert_eq!(t.transfer(2, 3, 10), Err(Error::ContractPaused));
    assert_eq!(t.transfer_from(3, 2, 4, 10), Err(Error::ContractPaused));
    assert_eq!(t.batch_transfer(2, vec![3, 4], 10), Err(Error::ContractPaused));
    assert_eq!(t.balance_of(2), 100);
    assert_eq!(t.unpause(OWNER), Ok(()));
    assert!(!t.is_paused());
    assert_eq!(t.transfer(2, 3, 10), Ok(()));
    assert_eq!(t.balance_of(3), 10);
}

#[test]
fn pause_and_unpause_are_owner_gated() {
    let mut t = SimpleToken::new(OWNER);
    assert_eq!(t.pause(2), Err(Error::NotOwner));
    assert!(!t.is_paused());
    assert_eq!(t.pause(OWNER), Ok(()));
    assert_eq!(t.unpause(2), Err(Error::NotOwner));
    assert!(t.is_paused());
    assert_eq!(t.unpause(OWNER), Ok(()));
    assert!(!t.is_paused());
}

#[test]
fn pause_is_checked_before_blacklist_and_amount() {
    let mut t = funded(2, 100);
    assert_eq!(t.add_to_blacklist(OWNER, 2), Ok(()));
    assert_eq!(t.pause(OWNER), Ok(()));
    assert_eq!(t.transfer(2, 3, 0), Err(Error::ContractPaused));
}

#[test]
fn blacklist_bars_either_end_of_a_transfer() {
    let mut t = funded(2, 100);
    assert_eq!(t.mint(OWNER, 3, 100), Ok(()));
    assert_eq!(t.add_to_blacklist(OWNER, 3), Ok(()));
    assert!(t.is_blacklisted(3));
    assert_eq!(t.transfer(3, 4, 10), Err(Error::AddressBlacklisted));
    assert_eq!(t.transfer(2, 3, 10), Err(Error::AddressBlacklisted));
    assert_eq!(t.remove_from_blacklist(OWNER, 3), Ok(()));
    assert!(!t.is_blacklisted(3));
    assert_eq!(t.transfer(2, 3, 10), Ok(()));
    assert_eq!(t.balance_of(3), 110);
}

#[test]
fn transfer_from_checks_blacklist_on_ends_not_spender() {
    let mut t = funded(2, 100);
    assert_eq!(t.approve(2, 3, 50), Ok(()));
    assert_eq!(t.add_to_blacklist(OWNER, 3), Ok(()));
    assert_eq!(t.transfer_from(3, 2, 4, 20), Ok(()));
    assert_eq!(t.balance_of(4), 20);
    assert_eq!(t.add_to_blacklist(OWNER, 2), Ok(()));
    assert_eq!(t.transfer_from(3, 2, 4, 10), Err(Error::AddressBlacklisted));
}

#[test]
fn blacklist_additions_are_idempotent() {
    let mut t = SimpleToken::new(OWNER);
    assert_eq!(t.add_to_blacklist(OWNER, 5), Ok(()));
    assert_eq!(t.add_to_blacklist(OWNER, 5), Ok(()));
    assert!(t.is_blacklisted(5));
    assert_eq!(t.remove_from_blacklist(OWNER, 5), Ok(()));
    assert!(!t.is_blacklisted(5));
}

#[test]
fn removing_a_never_listed_address_succeeds() {
    let mut t = SimpleToken::new(OWNER);
    assert_eq!(t.remove_from_blacklist(OWNER, 9), Ok(()));
    assert!(!t.is_blacklisted(9));
}

#[test]
fn blacklist_maintenance_is_owner_gated() {
    let mut t = SimpleToken::new(OWNER);
    assert_eq!(t.add_to_blacklist(2, 5), Err(Error::NotOwner));
    assert!(!t.is_blacklisted(5));
    assert_eq!(t.add_to_blacklist(OWNER, 5), Ok(()));
    assert_eq!(t.remove_from_blacklist(2, 5), Err(Error::NotOwner));
    assert!(t.is_blacklisted(5));
}

#[test]
fn batch_transfer_pays_each_recipient_in_order() {
    let mut t = funded(2, 100);
    let before = t.events().len();
    assert_eq!(t.batch_transfer(2, vec![3, 4, 5], 10), Ok(()));
    assert_eq!(t.balance_of(2), 70);
    assert_eq!(t.balance_of(3), 10);
    assert_eq!(t.balance_of(4), 10);
    assert_eq!(t.balance_of(5), 10);
    assert_eq!(t.total_supply(), 100);
    assert_eq!(
        &t.events()[before..],
        &[
            Event::Transfer(Transfer { from: Some(2), to: Some(3), value: 10 }),
            Event::Transfer(Transfer { from: Some(2), to: Some(4), value: 10 }),
            Event::Transfer(Transfer { from: Some(2), to: Some(5), value: 10 }),
        ]
    );
}

#[test]
fn batch_transfer_is_atomic_on_insufficient_balance() {
    let mut t = funded(2, 50);
    let events_before = t.events().len();
    assert_eq!(t.batch_transfer(2, vec![3, 4, 5], 20), Err(Error::InsufficientBalance));
    assert_eq!(t.balance_of(2), 50);
    assert_eq!(t.balance_of(3), 0);
    assert_eq!(t.balance_of(4), 0);
    assert_eq!(t.balance_of(5), 0);
    assert_eq!(t.events().len(), events_before);
}

#[test]
fn batch_transfer_credits_duplicates_once_per_occurrence() {
    let mut t = funded(2, 50);
    assert_eq!(t.batch_transfer(2, vec![7, 7], 10), Ok(()));
    assert_eq!(t.balance_of(7), 20);
    assert_eq!(t.balance_of(2), 30);
}

#[test]
fn batch_transfer_rejects_any_blacklisted_recipient() {
    let mut t = funded(2, 100);
    assert_eq!(t.add_to_blacklist(OWNER, 4), Ok(()));
    assert_eq!(t.batch_transfer(2, vec![3, 4, 5], 10), Err(Error::AddressBlacklisted));
    assert_eq!(t.balance_of(2), 100);
    assert_eq!(t.balance_of(3), 0);
}

#[test]
fn batch_transfer_rejects_a_blacklisted_caller() {
    let mut t = funded(2, 100);
    assert_eq!(t.add_to_blacklist(OWNER, 2), Ok(()));
    assert_eq!(t.batch_transfer(2, vec![3], 10), Err(Error::AddressBlacklisted));
    assert_eq!(t.balance_of(2), 100);
}

#[test]
fn batch_transfer_of_zero_is_invalid() {
    let mut t = funded(2, 100);
    assert_eq!(t.batch_transfer(2, vec![3, 4], 0), Err(Error::InvalidAmount));
    assert_eq!(t.balance_of(2), 100);
}

#[test]
fn batch_transfer_total_overflow_reads_as_insufficient_balance() {
    let mut t = funded(2, 100);
    assert_eq!(t.batch_transfer(2, vec![3, 4], u128::MAX), Err(Error::InsufficientBalance));
    assert_eq!(t.balance_of(2), 100);
    assert_eq!(t.balance_of(3), 0);
}

#[test]
fn batch_transfer_with_no_recipients_changes_nothing() {
    let mut t = funded(2, 100);
    let events_before = t.events().len();
    assert_eq!(t.batch_transfer(2, vec![], 10), Ok(()));
    assert_eq!(t.balance_of(2), 100);
    assert_eq!(t.total_supply(), 100);
    assert_eq!(t.events().len(), events_before);
}
