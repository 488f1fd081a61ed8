use vstd::prelude::*;

verus! {

/// Identifies a ledger participant: an opaque, comparable value with no
/// internal structure that the ledger ever inspects.
pub type AccountId = u64;

/// A token quantity. 128 bits of range, so realistic workloads never
/// approach the representable maximum; operations that could overflow it
/// are checked all the same.
pub type Balance = u128;

/// The closed set of failures a ledger operation can report. Every mutating
/// operation either fully succeeds or returns one of these and leaves the
/// ledger untouched.
#[derive(Clone, Copy, PartialEq, Eq, Debug)]
pub enum Error {
    /// Not enough balance to perform the operation.
    InsufficientBalance,
    /// Caller is not the ledger owner.
    NotOwner,
    /// The spender's allowance does not cover the requested amount.
    InsufficientAllowance,
    /// The ledger is currently paused.
    ContractPaused,
    /// An involved address is blacklisted.
    AddressBlacklisted,
    /// Invalid amount (for example, zero where a positive amount is required).
    InvalidAmount,
}

/// Record of tokens moving between accounts. `None` stands for "no account":
/// minting is a transfer from `None`, burning a transfer to `None`.
#[derive(Clone, Copy, PartialEq, Eq, Debug)]
pub struct Transfer {
    pub from: Option<AccountId>,
    pub to: Option<AccountId>,
    pub value: Balance,
}

/// Record of freshly minted tokens credited to an account.
#[derive(Clone, Copy, PartialEq, Eq, Debug)]
pub struct Mint {
    pub to: AccountId,
    pub value: Balance,
}

/// Record of an owner granting a spender an allowance.
#[derive(Clone, Copy, PartialEq, Eq, Debug)]
pub struct Approval {
    pub owner: AccountId,
    pub spender: AccountId,
    pub value: Balance,
}

/// One entry of the ledger's observable event log.
#[derive(Clone, Copy, PartialEq, Eq, Debug)]
pub enum Event {
    Transfer(Transfer),
    Mint(Mint),
    Approval(Approval),
}

/// The transfer event as the contracts state it.
pub open spec fn transfer_event(from: Option<AccountId>, to: Option<AccountId>, value: Balance) -> Event {
    Event::Transfer(Transfer { from, to, value })
}

/// The mint event as the contracts state it.
pub open spec fn mint_event(to: AccountId, value: Balance) -> Event {
    Event::Mint(Mint { to, value })
}

/// The approval event as the contracts state it.
pub open spec fn approval_event(owner: AccountId, spender: AccountId, value: Balance) -> Event {
    Event::Approval(Approval { owner, spender, value })
}

} // verus!
