use simple_token::{Approval, Error, Event, Mint, SimpleToken, Transfer};

const OWNER: u64 = 1;

/// A ledger owned by `OWNER` with `amount` freshly minted to `account`.
fn funded(account: u64, amount: u128) -> SimpleToken {
    let mut t = SimpleToken::new(OWNER);
    assert_eq!(t.mint(OWNER, account, amount), Ok(()));
    t
}

#[test]
fn new_ledger_is_zeroed() {
    let t = SimpleToken::new(OWNER);
    assert_eq!(t.total_supply(), 0);
    assert_eq!(t.balance_of(2), 0);
    assert_eq!(t.allowance(2, 3), 0);
    assert!(!t.is_paused());
    assert!(!t.is_blacklisted(2));
    assert!(t.events().is_empty());
}

#[test]
fn mint_by_owner_credits_and_grows_supply() {
    let mut t = SimpleToken::new(OWNER);
    assert_eq!(t.mint(OWNER, 2, 100), Ok(()));
    assert_eq!(t.balance_of(2), 100);
    assert_eq!(t.total_supply(), 100);
    assert_eq!(
        t.events().as_slice(),
        &[
            Event::Mint(Mint { to: 2, value: 100 }),
            Event::Transfer(Transfer { from: None, to: Some(2), value: 100 }),
        ]
    );
}

#[test]
fn mint_by_non_owner_fails_with_not_owner() {
    let mut t = SimpleToken::new(OWNER);
    assert_eq!(t.mint(2, 2, 100), Err(Error::NotOwner));
    assert_eq!(t.balance_of(2), 0);
    assert_eq!(t.total_supply(), 0);
    assert!(t.events().is_empty());
}

#[test]
fn zero_mint_is_permitted_and_still_notifies() {
    let mut t = SimpleToken::new(OWNER);
    assert_eq!(t.mint(OWNER, 2, 0), Ok(()));
    assert_eq!(t.balance_of(2), 0);
    assert_eq!(t.total_supply(), 0);
    assert_eq!(t.events().len(), 2);
}

#[test]
fn mint_past_supply_maximum_is_rejected() {
    let mut t = SimpleToken::new(OWNER);
    assert_eq!(t.mint(OWNER, 2, u128::MAX), Ok(()));
    assert_eq!(t.total_supply(), u128::MAX);
    assert_eq!(t.mint(OWNER, 3, 1), Err(Error::InvalidAmount));
    assert_eq!(t.total_supply(), u128::MAX);
    assert_eq!(t.balance_of(3), 0);
}

#[test]
fn transfer_moves_exactly_the_amount() {
    let mut t = funded(2, 100);
    assert_eq!(t.transfer(2, 3, 40), Ok(()));
    assert_eq!(t.balance_of(2), 60);
    assert_eq!(t.balance_of(3), 40);
    assert_eq!(t.total_supply(), 100);
    assert_eq!(
        t.events().last(),
        Some(&Event::Transfer(Transfer { from: Some(2), to: Some(3), value: 40 }))
    );
}

#[test]
fn transfer_of_zero_is_invalid() {
    let mut t = funded(2, 100);
    assert_eq!(t.transfer(2, 3, 0), Err(Error::InvalidAmount));
    assert_eq!(t.balance_of(2), 100);
    assert_eq!(t.balance_of(3), 0);
}

#[test]
fn transfer_beyond_balance_fails() {
    let mut t = funded(2, 100);
    assert_eq!(t.transfer(2, 3, 101), Err(Error::InsufficientBalance));
    assert_eq!(t.balance_of(2), 100);
    assert_eq!(t.balance_of(3), 0);
}

#[test]
fn transfer_to_self_changes_nothing_but_notifies() {
    let mut t = funded(2, 100);
    assert_eq!(t.transfer(2, 2, 30), Ok(()));
    assert_eq!(t.balance_of(2), 100);
    assert_eq!(t.total_supply(), 100);
    assert_eq!(
        t.events().last(),
        Some(&Event::Transfer(Transfer { from: Some(2), to: Some(2), value: 30 }))
    );
}

#[test]
fn approve_sets_and_overwrites_allowance() {
    let mut t = SimpleToken::new(OWNER);
    assert_eq!(t.approve(2, 3, 100), Ok(()));
    assert_eq!(t.allowance(2, 3), 100);
    assert_eq!(
        t.events().last(),
        Some(&Event::Approval(Approval { owner: 2, spender: 3, value: 100 }))
    );
    assert_eq!(t.approve(2, 3, 30), Ok(()));
    assert_eq!(t.allowance(2, 3), 30);
    assert_eq!(t.allowance(3, 2), 0);
}

#[test]
fn event_log_records_every_success_in_order() {
    let mut t = SimpleToken::new(OWNER);
    assert_eq!(t.mint(OWNER, 2, 100), Ok(()));
    assert_eq!(t.transfer(2, 3, 40), Ok(()));
    assert_eq!(t.approve(3, 4, 20), Ok(()));
    assert_eq!(t.transfer_from(4, 3, 5, 15), Ok(()));
    assert_eq!(t.transfer(2, 3, 0), Err(Error::InvalidAmount));
    assert_eq!(t.burn(2, 10), Ok(()));
    assert_eq!(
        t.events().as_slice(),
        &[
            Event::Mint(Mint { to: 2, value: 100 }),
            Event::Transfer(Transfer { from: None, to: Some(2), value: 100 }),
            Event::Transfer(Transfer { from: Some(2), to: Some(3), value: 40 }),
            Event::Approval(Approval { owner: 3, spender: 4, value: 20 }),
            Event::Transfer(Transfer { from: Some(3), to: Some(5), value: 15 }),
            Event::Transfer(Transfer { from: Some(2), to: None, value: 10 }),
        ]
    );
}

#[test]
fn allowance_decrements_by_the_moved_amount() {
    let mut t = funded(2, 100);
    assert_eq!(t.approve(2, 3, 100), Ok(()));
    assert_eq!(t.transfer_from(3, 2, 4, 40), Ok(()));
    assert_eq!(t.allowance(2, 3), 60);
    assert_eq!(t.balance_of(4), 40);
    assert_eq!(t.balance_of(2), 60);
    assert_eq!(t.total_supply(), 100);
    assert_eq!(
        t.events().last(),
        Some(&Event::Transfer(Transfer { from: Some(2), to: Some(4), value: 40 }))
    );
}

#[test]
fn transfer_from_beyond_allowance_fails() {
    let mut t = funded(2, 100);
    assert_eq!(t.approve(2, 3, 10), Ok(()));
    assert_eq!(t.transfer_from(3, 2, 4, 11), Err(Error::InsufficientAllowance));
    assert_eq!(t.allowance(2, 3), 10);
    assert_eq!(t.balance_of(2), 100);
}

#[test]
fn transfer_from_beyond_balance_fails() {
    let mut t = funded(2, 30);
    assert_eq!(t.approve(2, 3, 100), Ok(()));
    assert_eq!(t.transfer_from(3, 2, 4, 40), Err(Error::InsufficientBalance));
    assert_eq!(t.allowance(2, 3), 100);
    assert_eq!(t.balance_of(2), 30);
    assert_eq!(t.balance_of(4), 0);
}

#[test]
fn transfer_from_of_zero_is_invalid() {
    let mut t = funded(2, 100);
    assert_eq!(t.approve(2, 3, 50), Ok(()));
    assert_eq!(t.transfer_from(3, 2, 4, 0), Err(Error::InvalidAmount));
}

#[test]
fn burn_shrinks_balance_and_supply_alike() {
    let mut t = funded(2, 100);
    assert_eq!(t.burn(2, 30), Ok(()));
    assert_eq!(t.balance_of(2), 70);
    assert_eq!(t.total_supply(), 70);
    assert_eq!(
        t.events().last(),
        Some(&Event::Transfer(Transfer { from: Some(2), to: None, value: 30 }))
    );
}

#[test]
fn burn_of_zero_is_invalid() {
    let mut t = funded(2, 100);
    assert_eq!(t.burn(2, 0), Err(Error::InvalidAmount));
    assert_eq!(t.total_supply(), 100);
}

#[test]
fn burn_beyond_balance_fails() {
    let mut t = funded(2, 100);
    assert_eq!(t.burn(2, 101), Err(Error::InsufficientBalance));
    assert_eq!(t.balance_of(2), 100);
    assert_eq!(t.total_supply(), 100);
}

#[test]
fn burn_ignores_pause_and_blacklist() {
    let mut t = funded(2, 100);
    assert_eq!(t.pause(OWNER), Ok(()));
    assert_eq!(t.add_to_blacklist(OWNER, 2), Ok(()));
    assert_eq!(t.burn(2, 10), Ok(()));
    assert_eq!(t.balance_of(2), 90);
    assert_eq!(t.total_supply(), 90);
}

#[test]
fn supply_equals_sum_of_balances_throughout() {
    let mut t = SimpleToken::new(OWNER);
    let accounts = [2u64, 3, 4, 5];
    let sum_over = |t: &SimpleToken| -> u128 {
        accounts.iter().map(|a| t.balance_of(*a)).sum()
    };
    assert_eq!(t.mint(OWNER, 2, 1000), Ok(()));
    assert_eq!(t.total_supply(), sum_over(&t));
    assert_eq!(t.transfer(2, 3, 250), Ok(()));
    assert_eq!(t.total_supply(), sum_over(&t));
    assert_eq!(t.approve(3, 4, 100), Ok(()));
    assert_eq!(t.transfer_from(4, 3, 5, 75), Ok(()));
    assert_eq!(t.total_supply(), sum_over(&t));
    assert_eq!(t.burn(2, 500), Ok(()));
    assert_eq!(t.total_supply(), sum_over(&t));
    assert_eq!(t.batch_transfer(2, vec![3, 4, 5], 50), Ok(()));
    assert_eq!(t.total_supply(), sum_over(&t));
    assert_eq!(t.total_supply(), 500);
}
