//! Properties of the ledger that relate several operations or hold of every
//! sequence of them.
use vstd::prelude::*;

use crate::account::AccountId;
use crate::events::{approval_record, PSP22Event};
use crate::state::{
    lemma_burned, lemma_minted, lemma_moved, lemma_with_allowance, LedgerState, Operation,
};
use crate::table::{map_sum, no_zero_amounts};

verus! {

/// An empty ledger is consistent.
pub proof fn lemma_empty_consistent()
    ensures
        LedgerState::empty().consistent(),
{
    assert(map_sum(LedgerState::empty().balances) == 0);
}

/// Every operation takes a consistent ledger to a consistent one, whether it
/// succeeds or is refused.
pub proof fn lemma_step_keeps_consistency(s: LedgerState, op: Operation)
    requires
        s.consistent(),
    ensures
        s.after(op).consistent(),
{
    match op {
        Operation::Transfer { caller, to, value } => {
            if s.balance(caller) >= value {
                lemma_moved(s, caller, to, value);
            }
        },
        Operation::TransferFrom { caller, from, to, value } => {
            if s.balance(from) >= value {
                lemma_moved(s, from, to, value);
                if s.allowance(from, caller) >= value {
                    let left = (s.allowance(from, caller) - value) as u128;
                    lemma_with_allowance(s, from, caller, left);
                    lemma_moved(s.with_allowance(from, caller, left), from, to, value);
                }
            }
        },
        Operation::Approve { owner, spender, value } => {
            lemma_with_allowance(s, owner, spender, value);
        },
        Operation::IncreaseAllowance { owner, spender, delta } => {
            lemma_with_allowance(
                s,
                owner,
                spender,
                crate::state::sat_add(s.allowance(owner, spender), delta),
            );
        },
        Operation::DecreaseAllowance { owner, spender, delta } => {
            if s.allowance(owner, spender) >= delta {
                lemma_with_allowance(
                    s,
                    owner,
                    spender,
                    (s.allowance(owner, spender) - delta) as u128,
                );
            }
        },
        Operation::Mint { to, value } => {
            if s.total_supply + value <= u128::MAX {
                lemma_minted(s, to, value);
            }
        },
        Operation::Burn { from, value } => {
            if s.balance(from) >= value {
                lemma_burned(s, from, value);
            }
        },
        Operation::BurnFrom { caller, from, value } => {
            if s.allowance(from, caller) >= value && s.balance(from) >= value {
                let left = (s.allowance(from, caller) - value) as u128;
                lemma_with_allowance(s, from, caller, left);
                lemma_burned(s.with_allowance(from, caller, left), from, value);
            }
        },
    }
}

/// After any sequence of operations on a consistent ledger, the total supply
/// is the sum of all balances, and no balance or allowance is stored as zero.
pub proof fn lemma_run_keeps_consistency(s: LedgerState, ops: Seq<Operation>)
    requires
        s.consistent(),
    ensures
        s.run(ops).total_supply == map_sum(s.run(ops).balances),
        no_zero_amounts(s.run(ops).balances),
        no_zero_amounts(s.run(ops).allowances),
        s.run(ops).consistent(),
    decreases ops.len(),
{
    if ops.len() > 0 {
        lemma_step_keeps_consistency(s, ops[0]);
        lemma_run_keeps_consistency(s.after(ops[0]), ops.drop_first());
    }
}

/// Minting `value` tokens to an account and then burning as many from it
/// restores the supply, the account's balance, and indeed the whole ledger.
pub proof fn lemma_mint_then_burn(s: LedgerState, account: AccountId, value: u128)
    requires
        s.consistent(),
        s.mint(account, value) is Ok,
    ensures
        match s.mint(account, value) {
            Ok((minted, _)) => match minted.burn(account, value) {
                Ok((burned, _)) => {
                    &&& burned.total_supply == s.total_supply
                    &&& burned.balance(account) == s.balance(account)
                    &&& burned == s
                },
                Err(_) => false,
            },
            Err(_) => false,
        },
{
    if value > 0 {
        lemma_minted(s, account, value);
        let minted = s.mint(account, value)->Ok_0.0;
        let burned = minted.burn(account, value)->Ok_0.0;
        assert(burned.balances =~= s.balances);
    }
}

/// Once `owner` approves a different `spender` for `value`, the allowance
/// reads `value`; an approval of zero leaves no entry behind.
pub proof fn lemma_approve_sets_allowance(
    s: LedgerState,
    owner: AccountId,
    spender: AccountId,
    value: u128,
)
    requires
        owner != spender,
    ensures
        match s.approve(owner, spender, value) {
            Ok((next, _)) => {
                &&& next.allowance(owner, spender) == value
                &&& value == 0 ==> !next.allowances.dom().contains((owner, spender))
            },
            Err(_) => false,
        },
{
}

/// Increasing an allowance by `delta` and then decreasing it by `delta`
/// restores the ledger, where the increase does not saturate; the only events
/// are the two Approvals.
pub proof fn lemma_increase_then_decrease(
    s: LedgerState,
    owner: AccountId,
    spender: AccountId,
    delta: u128,
)
    requires
        s.consistent(),
        s.allowance(owner, spender) + delta <= u128::MAX,
    ensures
        match s.increase_allowance(owner, spender, delta) {
            Ok((raised, first)) => match raised.decrease_allowance(owner, spender, delta) {
                Ok((lowered, second)) => {
                    &&& lowered == s
                    &&& first + second == if owner != spender && delta != 0 {
                        seq![
                            approval_record(owner, spender, (s.allowance(owner, spender) + delta) as u128),
                            approval_record(owner, spender, s.allowance(owner, spender)),
                        ]
                    } else {
                        Seq::<PSP22Event>::empty()
                    }
                },
                Err(_) => false,
            },
            Err(_) => false,
        },
{
    if owner != spender && delta != 0 {
        let raised = s.increase_allowance(owner, spender, delta)->Ok_0.0;
        let lowered = raised.decrease_allowance(owner, spender, delta)->Ok_0.0;
        assert(lowered.allowances =~= s.allowances);
        let first = s.increase_allowance(owner, spender, delta)->Ok_0.1;
        let second = raised.decrease_allowance(owner, spender, delta)->Ok_0.1;
        assert(first + second =~= seq![
            approval_record(owner, spender, (s.allowance(owner, spender) + delta) as u128),
            approval_record(owner, spender, s.allowance(owner, spender)),
        ]);
    } else {
        assert(Seq::<PSP22Event>::empty() + Seq::<PSP22Event>::empty() =~= Seq::<PSP22Event>::empty());
    }
}

/// Moving tokens to oneself and approving oneself change nothing and emit
/// nothing, whatever the amount, even beyond the balance or the supply.
pub proof fn lemma_self_operations_are_noops(
    s: LedgerState,
    caller: AccountId,
    account: AccountId,
    value: u128,
)
    ensures
        s.transfer(account, account, value) == s.unchanged(),
        s.transfer_from(caller, account, account, value) == s.unchanged(),
        s.approve(account, account, value) == s.unchanged(),
        s.increase_allowance(account, account, value) == s.unchanged(),
        s.decrease_allowance(account, account, value) == s.unchanged(),
{
}

} // verus!
