//! The ledger as a mathematical object: its state, and what each operation
//! makes of it.
use vstd::prelude::*;

use crate::account::AccountId;
use crate::errors::Rejection;
use crate::events::{approval_record, transfer_record, PSP22Event};
use crate::table::{
    amount_of, lemma_amount_le_sum, lemma_map_sum_with, lemma_with_amount_positive, map_sum,
    no_zero_amounts, with_amount,
};

verus! {

/// The contents of a ledger: the supply, the balances and the allowances,
/// each map holding only positive amounts.
pub struct LedgerState {
    pub total_supply: u128,
    pub balances: Map<AccountId, u128>,
    pub allowances: Map<(AccountId, AccountId), u128>,
}

/// What an operation does: the next state and the events it emits, or why it is refused.
pub type Step = Result<(LedgerState, Seq<PSP22Event>), Rejection>;

/// Addition that stops at the largest amount.
pub open spec fn sat_add(a: u128, b: u128) -> u128 {
    if a + b > u128::MAX {
        u128::MAX
    } else {
        (a + b) as u128
    }
}

/// Subtraction that stops at zero.
pub open spec fn sat_sub(a: u128, b: u128) -> u128 {
    if a < b {
        0
    } else {
        (a - b) as u128
    }
}

/// An operation on the ledger, with the accounts and amount it names.
pub enum Operation {
    Transfer { caller: AccountId, to: AccountId, value: u128 },
    TransferFrom { caller: AccountId, from: AccountId, to: AccountId, value: u128 },
    Approve { owner: AccountId, spender: AccountId, value: u128 },
    IncreaseAllowance { owner: AccountId, spender: AccountId, delta: u128 },
    DecreaseAllowance { owner: AccountId, spender: AccountId, delta: u128 },
    Mint { to: AccountId, value: u128 },
    Burn { from: AccountId, value: u128 },
    BurnFrom { caller: AccountId, from: AccountId, value: u128 },
}

impl LedgerState {
    /// A ledger with no tokens and no allowances.
    pub open spec fn empty() -> LedgerState {
        LedgerState { total_supply: 0, balances: Map::empty(), allowances: Map::empty() }
    }

    /// The outcome of an operation that changes nothing and emits nothing.
    pub open spec fn unchanged(self) -> Step {
        Ok((self, seq![]))
    }

    /// The supply is the sum of all balances, and no entry is zero.
    pub open spec fn consistent(self) -> bool {
        &&& self.balances.dom().finite()
        &&& self.allowances.dom().finite()
        &&& no_zero_amounts(self.balances)
        &&& no_zero_amounts(self.allowances)
        &&& self.total_supply == map_sum(self.balances)
    }

    pub open spec fn balance(self, owner: AccountId) -> u128 {
        amount_of(self.balances, owner)
    }

    pub open spec fn allowance(self, owner: AccountId, spender: AccountId) -> u128 {
        amount_of(self.allowances, (owner, spender))
    }

    pub open spec fn with_balance(self, owner: AccountId, v: u128) -> LedgerState {
        LedgerState { balances: with_amount(self.balances, owner, v), ..self }
    }

    pub open spec fn with_allowance(self, owner: AccountId, spender: AccountId, v: u128) -> LedgerState {
        LedgerState { allowances: with_amount(self.allowances, (owner, spender), v), ..self }
    }

    /// `value` tokens leave `from`, which holds at least that many, and reach `to`.
    pub open spec fn moved(self, from: AccountId, to: AccountId, value: u128) -> LedgerState {
        let s = self.with_balance(from, (self.balance(from) - value) as u128);
        s.with_balance(to, sat_add(s.balance(to), value))
    }

    /// `value` tokens of `from`, which holds at least that many, are destroyed.
    pub open spec fn burned(self, from: AccountId, value: u128) -> LedgerState {
        let s = self.with_balance(from, (self.balance(from) - value) as u128);
        LedgerState { total_supply: sat_sub(self.total_supply, value), ..s }
    }

    pub open spec fn transfer(self, caller: AccountId, to: AccountId, value: u128) -> Step {
        if caller == to || value == 0 {
            self.unchanged()
        } else if self.balance(caller) < value {
            Err(Rejection::InsufficientBalance)
        } else {
            Ok(
                (
                    self.moved(caller, to, value),
                    seq![transfer_record(Some(caller), Some(to), value)],
                ),
            )
        }
    }

    pub open spec fn transfer_from(
        self,
        caller: AccountId,
        from: AccountId,
        to: AccountId,
        value: u128,
    ) -> Step {
        if from == to || value == 0 {
            self.unchanged()
        } else if caller == from {
            self.transfer(caller, to, value)
        } else if self.allowance(from, caller) < value {
            Err(Rejection::InsufficientAllowance)
        } else if self.balance(from) < value {
            Err(Rejection::InsufficientBalance)
        } else {
            let left = (self.allowance(from, caller) - value) as u128;
            Ok(
                (
                    self.with_allowance(from, caller, left).moved(from, to, value),
                    seq![
                        approval_record(from, caller, left),
                        transfer_record(Some(from), Some(to), value),
                    ],
                ),
            )
        }
    }

    pub open spec fn approve(self, owner: AccountId, spender: AccountId, value: u128) -> Step {
        if owner == spender {
            self.unchanged()
        } else {
            Ok(
                (
                    self.with_allowance(owner, spender, value),
                    seq![approval_record(owner, spender, value)],
                ),
            )
        }
    }

    pub open spec fn increase_allowance(
        self,
        owner: AccountId,
        spender: AccountId,
        delta: u128,
    ) -> Step {
        if owner == spender || delta == 0 {
            self.unchanged()
        } else {
            let amount = sat_add(self.allowance(owner, spender), delta);
            Ok(
                (
                    self.with_allowance(owner, spender, amount),
                    seq![approval_record(owner, spender, amount)],
                ),
            )
        }
    }

    pub open spec fn decrease_allowance(
        self,
        owner: AccountId,
        spender: AccountId,
        delta: u128,
    ) -> Step {
        if owner == spender || delta == 0 {
            self.unchanged()
        } else if self.allowance(owner, spender) < delta {
            Err(Rejection::InsufficientAllowance)
        } else {
            let amount = (self.allowance(owner, spender) - delta) as u128;
            Ok(
                (
                    self.with_allowance(owner, spender, amount),
                    seq![approval_record(owner, spender, amount)],
                ),
            )
        }
    }

    pub open spec fn mint(self, to: AccountId, value: u128) -> Step {
        if value == 0 {
            self.unchanged()
        } else if self.total_supply + value > u128::MAX {
            Err(Rejection::SupplyOverflow)
        } else {
            let s = LedgerState { total_supply: (self.total_supply + value) as u128, ..self };
            Ok(
                (
                    s.with_balance(to, sat_add(self.balance(to), value)),
                    seq![transfer_record(None, Some(to), value)],
                ),
            )
        }
    }

    pub open spec fn burn(self, from: AccountId, value: u128) -> Step {
        if value == 0 {
            self.unchanged()
        } else if self.balance(from) < value {
            Err(Rejection::InsufficientBalance)
        } else {
            Ok((self.burned(from, value), seq![transfer_record(Some(from), None, value)]))
        }
    }

    pub open spec fn burn_from(self, caller: AccountId, from: AccountId, value: u128) -> Step {
        if value == 0 {
            self.unchanged()
        } else if self.allowance(from, caller) < value {
            Err(Rejection::InsufficientAllowance)
        } else if self.balance(from) < value {
            Err(Rejection::InsufficientBalance)
        } else {
            let left = (self.allowance(from, caller) - value) as u128;
            Ok(
                (
                    self.with_allowance(from, caller, left).burned(from, value),
                    seq![transfer_record(Some(from), None, value)],
                ),
            )
        }
    }

    pub open spec fn apply(self, op: Operation) -> Step {
        match op {
            Operation::Transfer { caller, to, value } => self.transfer(caller, to, value),
            Operation::TransferFrom { caller, from, to, value } => self.transfer_from(
                caller,
                from,
                to,
                value,
            ),
            Operation::Approve { owner, spender, value } => self.approve(owner, spender, value),
            Operation::IncreaseAllowance { owner, spender, delta } => self.increase_allowance(
                owner,
                spender,
                delta,
            ),
            Operation::DecreaseAllowance { owner, spender, delta } => self.decrease_allowance(
                owner,
                spender,
                delta,
            ),
            Operation::Mint { to, value } => self.mint(to, value),
            Operation::Burn { from, value } => self.burn(from, value),
            Operation::BurnFrom { caller, from, value } => self.burn_from(caller, from, value),
        }
    }

    /// The state after `op`: the next state where it succeeds, this one where it is refused.
    pub open spec fn after(self, op: Operation) -> LedgerState {
        match self.apply(op) {
            Ok((next, _)) => next,
            Err(_) => self,
        }
    }

    /// The state after each of `ops` in turn.
    pub open spec fn run(self, ops: Seq<Operation>) -> LedgerState
        decreases ops.len(),
    {
        if ops.len() == 0 {
            self
        } else {
            self.after(ops[0]).run(ops.drop_first())
        }
    }
}

pub proof fn lemma_with_allowance(s: LedgerState, owner: AccountId, spender: AccountId, v: u128)
    requires
        s.consistent(),
    ensures
        s.with_allowance(owner, spender, v).consistent(),
{
    lemma_map_sum_with(s.allowances, (owner, spender), v);
    lemma_with_amount_positive(s.allowances, (owner, spender), v);
}

pub proof fn lemma_moved(s: LedgerState, from: AccountId, to: AccountId, value: u128)
    requires
        s.consistent(),
        s.balance(from) >= value,
    ensures
        s.moved(from, to, value).consistent(),
        s.moved(from, to, value).total_supply == s.total_supply,
{
    let b = (s.balance(from) - value) as u128;
    lemma_map_sum_with(s.balances, from, b);
    lemma_with_amount_positive(s.balances, from, b);
    let s1 = s.with_balance(from, b);
    lemma_amount_le_sum(s1.balances, to);
    lemma_map_sum_with(s1.balances, to, sat_add(s1.balance(to), value));
    lemma_with_amount_positive(s1.balances, to, sat_add(s1.balance(to), value));
}

pub proof fn lemma_burned(s: LedgerState, from: AccountId, value: u128)
    requires
        s.consistent(),
        s.balance(from) >= value,
    ensures
        s.burned(from, value).consistent(),
{
    let b = (s.balance(from) - value) as u128;
    lemma_amount_le_sum(s.balances, from);
    lemma_map_sum_with(s.balances, from, b);
    lemma_with_amount_positive(s.balances, from, b);
}

pub proof fn lemma_minted(s: LedgerState, to: AccountId, value: u128)
    requires
        s.consistent(),
        s.total_supply + value <= u128::MAX,
    ensures
        s.balance(to) + value <= u128::MAX,
        s.mint(to, value) matches Ok((next, _)) && next.consistent(),
{
    lemma_amount_le_sum(s.balances, to);
    let v = sat_add(s.balance(to), value);
    lemma_map_sum_with(s.balances, to, v);
    lemma_with_amount_positive(s.balances, to, v);
}

} // verus!
