use vstd::prelude::*;

use crate::account::AccountId;
use crate::errors::{reports, supply_overflow_error, PSP22Error};
use crate::events::{approval_event, pair, single, transfer_event, PSP22Event};
use crate::state::{
    lemma_burned, lemma_minted, lemma_moved, lemma_with_allowance, LedgerState, Step,
};
use crate::table::{
    entries_map, entries_sum, lemma_entries_sum, lemma_entries_sum_prefix, lemma_invalid_at,
    lemma_map_sum_with, lemma_prefix_grows, lemma_valid_prefix_grows, map_sum, valid_entries,
    AmountTable,
};

verus! {

/// `r` and `after` are what `step` asks for: on success the events it names
/// and the next state, on refusal the matching error and the state unchanged.
pub open spec fn follows(
    r: Result<Vec<PSP22Event>, PSP22Error>,
    before: LedgerState,
    after: LedgerState,
    step: Step,
) -> bool {
    match step {
        Ok((next, events)) => after == next && match r {
            Ok(v) => v@ == events,
            Err(_) => false,
        },
        Err(why) => after == before && match r {
            Ok(_) => false,
            Err(e) => reports(e, why),
        },
    }
}

/// The state of a PSP22 token: the supply, every account's balance and every
/// allowance.
///
/// Each method is one kind of transaction of the PSP22 standard. The ledger
/// does not know who calls it: methods that act for a caller take the caller
/// as an argument.
pub struct PSP22Data {
    total_supply: u128,
    balances: AmountTable<AccountId>,
    allowances: AmountTable<(AccountId, AccountId)>,
}

impl View for PSP22Data {
    type V = LedgerState;

    closed spec fn view(&self) -> LedgerState {
        LedgerState {
            total_supply: self.total_supply,
            balances: self.balances@,
            allowances: self.allowances@,
        }
    }
}

impl PSP22Data {
    /// Both tables are well formed and the ledger is consistent.
    pub closed spec fn wf(&self) -> bool {
        &&& self.balances.wf()
        &&& self.allowances.wf()
        &&& self@.consistent()
    }

    /// What every ledger satisfies: its supply is the sum of its balances,
    /// and it stores no zero balance or allowance.
    pub proof fn lemma_consistent(&self)
        requires
            self.wf(),
        ensures
            self@.consistent(),
    {
    }

    /// Creates a token with `supply` balance, initially held by the `creator` account.
    pub fn new(supply: u128, creator: AccountId) -> (r: (PSP22Data, Vec<PSP22Event>))
        ensures
            r.0.wf(),
            match LedgerState::empty().mint(creator, supply) {
                Ok((s, events)) => r.0@ == s && r.1@ == events,
                Err(_) => false,
            },
    {
        let mut data = PSP22Data {
            total_supply: 0,
            balances: AmountTable::new(),
            allowances: AmountTable::new(),
        };
        proof {
            assert(map_sum(Map::<AccountId, u128>::empty()) == 0);
        }
        match data.mint(creator, supply) {
            Ok(events) => (data, events),
            Err(_) => (data, Vec::new()),
        }
    }

    /// The balances and the allowances as lists of entries, each key once
    /// and no amount zero, as a shell stores them between calls.
    pub fn entries(&self) -> (r: (Vec<(AccountId, u128)>, Vec<((AccountId, AccountId), u128)>))
        requires
            self.wf(),
        ensures
            valid_entries(r.0@),
            valid_entries(r.1@),
            entries_map(r.0@) == self@.balances,
            entries_map(r.1@) == self@.allowances,
            entries_sum(r.0@) == self@.total_supply,
    {
        let balances = self.balances.entries();
        let allowances = self.allowances.entries();
        proof {
            lemma_entries_sum(balances@);
        }
        (balances, allowances)
    }

    /// Rebuilds a ledger from lists of entries. It is refused where a key
    /// repeats, an amount is zero, or the balances sum past the largest amount;
    /// the supply is the sum of the balances.
    pub fn from_entries(
        balances: Vec<(AccountId, u128)>,
        allowances: Vec<((AccountId, AccountId), u128)>,
    ) -> (r: Option<PSP22Data>)
        ensures
            match r {
                Some(d) => {
                    &&& d.wf()
                    &&& valid_entries(balances@)
                    &&& valid_entries(allowances@)
                    &&& entries_sum(balances@) <= u128::MAX
                    &&& d@ == (LedgerState {
                        total_supply: entries_sum(balances@) as u128,
                        balances: entries_map(balances@),
                        allowances: entries_map(allowances@),
                    })
                },
                None => !(valid_entries(balances@) && valid_entries(allowances@) && entries_sum(
                    balances@,
                ) <= u128::MAX),
            },
    {
        let mut data = PSP22Data {
            total_supply: 0,
            balances: AmountTable::new(),
            allowances: AmountTable::new(),
        };
        proof {
            assert(map_sum(Map::<AccountId, u128>::empty()) == 0);
            assert(balances@.take(0) =~= Seq::<(AccountId, u128)>::empty());
            assert(allowances@.take(0) =~= Seq::<((AccountId, AccountId), u128)>::empty());
        }
        let mut i: usize = 0;
        while i < balances.len()
            invariant
                i <= balances@.len(),
                data.wf(),
                data.allowances@ == Map::<(AccountId, AccountId), u128>::empty(),
                valid_entries(balances@.take(i as int)),
                data.balances@ == entries_map(balances@.take(i as int)),
                data.total_supply == entries_sum(balances@.take(i as int)),
            decreases balances@.len() - i,
        {
            let key = balances[i].0;
            let amount = balances[i].1;
            proof {
                lemma_prefix_grows(balances@, i as int);
            }
            if amount == 0 || data.balances.contains(&key) {
                proof {
                    lemma_invalid_at(balances@, i as int);
                }
                return None;
            }
            let total = match data.total_supply.checked_add(amount) {
                Some(t) => t,
                None => {
                    proof {
                        lemma_entries_sum_prefix(balances@, i + 1);
                    }
                    return None;
                },
            };
            proof {
                lemma_valid_prefix_grows(balances@, i as int);
                lemma_map_sum_with(data.balances@, key, amount);
            }
            data.balances.set(key, amount);
            data.total_supply = total;
            i = i + 1;
        }
        assert(balances@.take(i as int) =~= balances@);
        let mut j: usize = 0;
        while j < allowances.len()
            invariant
                j <= allowances@.len(),
                data.wf(),
                valid_entries(allowances@.take(j as int)),
                data.allowances@ == entries_map(allowances@.take(j as int)),
                data@.total_supply == entries_sum(balances@),
                data@.balances == entries_map(balances@),
            decreases allowances@.len() - j,
        {
            let key = allowances[j].0;
            let amount = allowances[j].1;
            proof {
                lemma_prefix_grows(allowances@, j as int);
            }
            if amount == 0 || data.allowances.contains(&key) {
                proof {
                    lemma_invalid_at(allowances@, j as int);
                }
                return None;
            }
            proof {
                lemma_valid_prefix_grows(allowances@, j as int);
            }
            data.allowances.set(key, amount);
            j = j + 1;
        }
        assert(allowances@.take(j as int) =~= allowances@);
        Some(data)
    }

    pub fn total_supply(&self) -> (r: u128)
        ensures
            r == self@.total_supply,
    {
        self.total_supply
    }

    pub fn balance_of(&self, owner: AccountId) -> (r: u128)
        requires
            self.wf(),
        ensures
            r == self@.balance(owner),
    {
        self.balances.get(&owner)
    }

    pub fn allowance(&self, owner: AccountId, spender: AccountId) -> (r: u128)
        requires
            self.wf(),
        ensures
            r == self@.allowance(owner, spender),
    {
        self.allowances.get(&(owner, spender))
    }

    /// Transfers `value` tokens from `caller` to `to`.
    pub fn transfer(&mut self, caller: AccountId, to: AccountId, value: u128) -> (r: Result<
        Vec<PSP22Event>,
        PSP22Error,
    >)
        requires
            old(self).wf(),
        ensures
            final(self).wf(),
            follows(r, old(self)@, final(self)@, old(self)@.transfer(caller, to, value)),
    {
        if caller == to || value == 0 {
            return Ok(Vec::new());
        }
        let from_balance = self.balance_of(caller);
        if from_balance < value {
            return Err(PSP22Error::InsufficientBalance);
        }
        proof {
            lemma_moved(self@, caller, to, value);
        }
        self.balances.set(caller, from_balance - value);
        let to_balance = self.balances.get(&to);
        // The supply bounds every balance, so this addition never saturates.
        self.balances.set(to, to_balance.saturating_add(value));
        Ok(single(transfer_event(Some(caller), Some(to), value)))
    }

    /// Transfers `value` tokens from `from` to `to`, but using the allowance
    /// granted by `from` to `caller`.
    pub fn transfer_from(
        &mut self,
        caller: AccountId,
        from: AccountId,
        to: AccountId,
        value: u128,
    ) -> (r: Result<Vec<PSP22Event>, PSP22Error>)
        requires
            old(self).wf(),
        ensures
            final(self).wf(),
            follows(r, old(self)@, final(self)@, old(self)@.transfer_from(caller, from, to, value)),
    {
        if from == to || value == 0 {
            return Ok(Vec::new());
        }
        if caller == from {
            return self.transfer(caller, to, value);
        }
        let allowance = self.allowance(from, caller);
        if allowance < value {
            return Err(PSP22Error::InsufficientAllowance);
        }
        let from_balance = self.balance_of(from);
        if from_balance < value {
            return Err(PSP22Error::InsufficientBalance);
        }
        proof {
            lemma_with_allowance(self@, from, caller, (allowance - value) as u128);
            lemma_moved(self@.with_allowance(from, caller, (allowance - value) as u128), from, to, value);
        }
        let left = allowance - value;
        self.allowances.set((from, caller), left);
        self.balances.set(from, from_balance - value);
        let to_balance = self.balances.get(&to);
        // The supply bounds every balance, so this addition never saturates.
        self.balances.set(to, to_balance.saturating_add(value));
        Ok(pair(approval_event(from, caller, left), transfer_event(Some(from), Some(to), value)))
    }

    /// Sets a new `value` for allowance granted by `owner` to `spender`.
    /// Overwrites the previously granted value.
    pub fn approve(&mut self, owner: AccountId, spender: AccountId, value: u128) -> (r: Result<
        Vec<PSP22Event>,
        PSP22Error,
    >)
        requires
            old(self).wf(),
        ensures
            final(self).wf(),
            follows(r, old(self)@, final(self)@, old(self)@.approve(owner, spender, value)),
    {
        if owner == spender {
            return Ok(Vec::new());
        }
        proof {
            lemma_with_allowance(self@, owner, spender, value);
        }
        self.allowances.set((owner, spender), value);
        Ok(single(approval_event(owner, spender, value)))
    }

    /// Increases the allowance granted by `owner` to `spender` by `delta_value`.
    pub fn increase_allowance(
        &mut self,
        owner: AccountId,
        spender: AccountId,
        delta_value: u128,
    ) -> (r: Result<Vec<PSP22Event>, PSP22Error>)
        requires
            old(self).wf(),
        ensures
            final(self).wf(),
            follows(
                r,
                old(self)@,
                final(self)@,
                old(self)@.increase_allowance(owner, spender, delta_value),
            ),
    {
        if owner == spender || delta_value == 0 {
            return Ok(Vec::new());
        }
        let allowance = self.allowance(owner, spender);
        let amount = allowance.saturating_add(delta_value);
        proof {
            lemma_with_allowance(self@, owner, spender, amount);
        }
        self.allowances.set((owner, spender), amount);
        Ok(single(approval_event(owner, spender, amount)))
    }

    /// Decreases the allowance granted by `owner` to `spender` by `delta_value`.
    pub fn decrease_allowance(
        &mut self,
        owner: AccountId,
        spender: AccountId,
        delta_value: u128,
    ) -> (r: Result<Vec<PSP22Event>, PSP22Error>)
        requires
            old(self).wf(),
        ensures
            final(self).wf(),
            follows(
                r,
                old(self)@,
                final(self)@,
                old(self)@.decrease_allowance(owner, spender, delta_value),
            ),
    {
        if owner == spender || delta_value == 0 {
            return Ok(Vec::new());
        }
        let allowance = self.allowance(owner, spender);
        if allowance < delta_value {
            return Err(PSP22Error::InsufficientAllowance);
        }
        let amount = allowance - delta_value;
        proof {
            lemma_with_allowance(self@, owner, spender, amount);
        }
        self.allowances.set((owner, spender), amount);
        Ok(single(approval_event(owner, spender, amount)))
    }

    /// Mints a `value` of new tokens to `to` account.
    pub fn mint(&mut self, to: AccountId, value: u128) -> (r: Result<Vec<PSP22Event>, PSP22Error>)
        requires
            old(self).wf(),
        ensures
            final(self).wf(),
            follows(r, old(self)@, final(self)@, old(self)@.mint(to, value)),
    {
        if value == 0 {
            return Ok(Vec::new());
        }
        let new_supply = match self.total_supply.checked_add(value) {
            Some(s) => s,
            None => return Err(supply_overflow_error()),
        };
        proof {
            lemma_minted(self@, to, value);
        }
        self.total_supply = new_supply;
        let new_balance = self.balances.get(&to).saturating_add(value);
        self.balances.set(to, new_balance);
        Ok(single(transfer_event(None, Some(to), value)))
    }

    /// Burns `value` tokens from `from` account.
    pub fn burn(&mut self, from: AccountId, value: u128) -> (r: Result<Vec<PSP22Event>, PSP22Error>)
        requires
            old(self).wf(),
        ensures
            final(self).wf(),
            follows(r, old(self)@, final(self)@, old(self)@.burn(from, value)),
    {
        if value == 0 {
            return Ok(Vec::new());
        }
        let balance = self.balance_of(from);
        if balance < value {
            return Err(PSP22Error::InsufficientBalance);
        }
        proof {
            lemma_burned(self@, from, value);
        }
        self.balances.set(from, balance - value);
        self.total_supply = self.total_supply.saturating_sub(value);
        Ok(single(transfer_event(Some(from), None, value)))
    }

    /// Burns `value` tokens from `from` account, using the allowance granted
    /// by `from` to `caller`.
    pub fn burn_from(&mut self, caller: AccountId, from: AccountId, value: u128) -> (r: Result<
        Vec<PSP22Event>,
        PSP22Error,
    >)
        requires
            old(self).wf(),
        ensures
            final(self).wf(),
            follows(r, old(self)@, final(self)@, old(self)@.burn_from(caller, from, value)),
    {
        if value == 0 {
            return Ok(Vec::new());
        }
        let allowance = self.allowance(from, caller);
        if allowance < value {
            return Err(PSP22Error::InsufficientAllowance);
        }
        let balance = self.balance_of(from);
        if balance < value {
            return Err(PSP22Error::InsufficientBalance);
        }
        proof {
            lemma_with_allowance(self@, from, caller, (allowance - value) as u128);
            lemma_burned(self@.with_allowance(from, caller, (allowance - value) as u128), from, value);
        }
        self.allowances.set((from, caller), allowance - value);
        self.balances.set(from, balance - value);
        self.total_supply = self.total_supply.saturating_sub(value);
        Ok(single(transfer_event(Some(from), None, value)))
    }
}

} // verus!
