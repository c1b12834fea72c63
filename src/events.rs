use vstd::prelude::*;

use crate::account::AccountId;

verus! {

/// Event emitted when allowance by `owner` to `spender` changes.
#[derive(Clone, Copy, Debug, PartialEq, Eq)]
pub struct Approval {
    /// Account providing allowance.
    pub owner: AccountId,
    /// Allowance beneficiary.
    pub spender: AccountId,
    /// New allowance amount.
    pub amount: u128,
}

/// Event emitted when transfer of tokens occurs.
#[derive(Clone, Copy, Debug, PartialEq, Eq)]
pub struct Transfer {
    /// Transfer sender. `None` in case of minting new tokens.
    pub from: Option<AccountId>,
    /// Transfer recipient. `None` in case of burning tokens.
    pub to: Option<AccountId>,
    /// Amount of tokens transferred (or minted/burned).
    pub value: u128,
}

/// An event produced by an operation that changes the ledger.
#[derive(Clone, Copy, Debug, PartialEq, Eq)]
pub enum PSP22Event {
    Transfer(Transfer),
    Approval(Approval),
}

/// The Approval event for `owner`, `spender` and the resulting `amount`.
pub open spec fn approval_record(owner: AccountId, spender: AccountId, amount: u128) -> PSP22Event {
    PSP22Event::Approval(Approval { owner, spender, amount })
}

/// The Transfer event for `from`, `to` and `value`.
pub open spec fn transfer_record(
    from: Option<AccountId>,
    to: Option<AccountId>,
    value: u128,
) -> PSP22Event {
    PSP22Event::Transfer(Transfer { from, to, value })
}

pub fn approval_event(owner: AccountId, spender: AccountId, amount: u128) -> (e: PSP22Event)
    ensures
        e == approval_record(owner, spender, amount),
{
    PSP22Event::Approval(Approval { owner, spender, amount })
}

pub fn transfer_event(from: Option<AccountId>, to: Option<AccountId>, value: u128) -> (e:
    PSP22Event)
    ensures
        e == transfer_record(from, to, value),
{
    PSP22Event::Transfer(Transfer { from, to, value })
}

/// The list of one event.
pub fn single(e: PSP22Event) -> (v: Vec<PSP22Event>)
    ensures
        v@ == seq![e],
{
    let v = vec![e];
    assert(v@ =~= seq![e]);
    v
}

/// The list of two events, in this order.
pub fn pair(first: PSP22Event, second: PSP22Event) -> (v: Vec<PSP22Event>)
    ensures
        v@ == seq![first, second],
{
    let v = vec![first, second];
    assert(v@ =~= seq![first, second]);
    v
}

} // verus!
