use vstd::prelude::*;

use crate::account::AccountId;
use crate::amounts::{
    amount_of, lemma_sum_bounds_one, lemma_sum_bounds_pair, lemma_sum_with_amount, no_zero_entries, read_amount,
    saturating_sum, sum_of, with_amount, write_amount,
};
use crate::errors::PSP22Error;
use crate::peer::PeerCall;
use crate::vec_map::VecMap;

verus! {

/// A movement of units: `from` is `None` for a mint, `to` is `None` for a burn.
#[derive(Debug, Clone, Copy, PartialEq, Eq)]
pub struct Transfer {
    pub from: Option<AccountId>,
    pub to: Option<AccountId>,
    pub value: u128,
}

/// The allowance that `owner` grants `spender` is now `amount`.
#[derive(Debug, Clone, Copy, PartialEq, Eq)]
pub struct Approval {
    pub owner: AccountId,
    pub spender: AccountId,
    pub amount: u128,
}

/// An event that a fungible-ledger operation asks the host to publish.
#[derive(Debug, Clone, Copy, PartialEq, Eq)]
pub enum PSP22Event {
    Transfer(Transfer),
    Approval(Approval),
}

/// The event of a movement of units.
pub open spec fn transfer_event(from: Option<AccountId>, to: Option<AccountId>, value: u128) -> PSP22Event {
    PSP22Event::Transfer(Transfer { from, to, value })
}

/// The event of a new allowance.
pub open spec fn approval_event(owner: AccountId, spender: AccountId, amount: u128) -> PSP22Event {
    PSP22Event::Approval(Approval { owner, spender, amount })
}

/// The operation succeeded and returned exactly `events`.
pub open spec fn emits(r: Result<Vec<PSP22Event>, PSP22Error>, events: Seq<PSP22Event>) -> bool {
    r matches Ok(v) && v@ == events
}

/// The abstract state of a fungible ledger.
pub struct FungibleState {
    pub total_supply: u128,
    pub balances: Map<AccountId, u128>,
    pub allowances: Map<(AccountId, AccountId), u128>,
}

impl FungibleState {
    /// What holds of every reachable state: the maps are finite and sparse,
    /// nobody holds an allowance from itself, and the supply is the sum of
    /// all balances.
    pub open spec fn consistent(self) -> bool {
        &&& self.balances.dom().finite()
        &&& self.allowances.dom().finite()
        &&& no_zero_entries(self.balances)
        &&& no_zero_entries(self.allowances)
        &&& forall|k: (AccountId, AccountId)| #[trigger] self.allowances.contains_key(k) ==> k.0 != k.1
        &&& self.total_supply == sum_of(self.balances)
    }

    pub open spec fn balance(self, owner: AccountId) -> u128 {
        amount_of(self.balances, owner)
    }

    pub open spec fn allowance(self, owner: AccountId, spender: AccountId) -> u128 {
        amount_of(self.allowances, (owner, spender))
    }

    /// `value` units moved from `from` to `to`.
    pub open spec fn moved(self, from: AccountId, to: AccountId, value: u128) -> FungibleState {
        FungibleState {
            total_supply: self.total_supply,
            balances: with_amount(
                with_amount(self.balances, from, (self.balance(from) - value) as u128),
                to,
                (self.balance(to) + value) as u128,
            ),
            allowances: self.allowances,
        }
    }

    /// The allowance of `spender` from `owner` set to `value`.
    pub open spec fn with_allowance(self, owner: AccountId, spender: AccountId, value: u128) -> FungibleState {
        FungibleState {
            total_supply: self.total_supply,
            balances: self.balances,
            allowances: with_amount(self.allowances, (owner, spender), value),
        }
    }

    /// The state after `approve(owner, spender, value)`.
    pub open spec fn approved(self, owner: AccountId, spender: AccountId, value: u128) -> FungibleState {
        if owner == spender {
            self
        } else {
            self.with_allowance(owner, spender, value)
        }
    }

    /// `value` new units credited to `to`.
    pub open spec fn minted(self, to: AccountId, value: u128) -> FungibleState {
        FungibleState {
            total_supply: (self.total_supply + value) as u128,
            balances: with_amount(self.balances, to, (self.balance(to) + value) as u128),
            allowances: self.allowances,
        }
    }

    /// `value` units of `from` destroyed.
    pub open spec fn burned(self, from: AccountId, value: u128) -> FungibleState {
        FungibleState {
            total_supply: (self.total_supply - value) as u128,
            balances: with_amount(self.balances, from, (self.balance(from) - value) as u128),
            allowances: self.allowances,
        }
    }
}

/// Approving zero is idempotent: after `approve(owner, spender, 0)` the
/// allowance is zero, and approving zero again changes nothing.
pub proof fn lemma_approve_zero_idempotent(s: FungibleState, owner: AccountId, spender: AccountId)
    requires
        s.consistent(),
    ensures
        s.approved(owner, spender, 0).allowance(owner, spender) == 0,
        s.approved(owner, spender, 0).approved(owner, spender, 0) == s.approved(owner, spender, 0),
{
    let t = s.approved(owner, spender, 0);
    if owner == spender {
        assert(!s.allowances.contains_key((owner, spender)));
    } else {
        assert(t.allowances.remove((owner, spender)) =~= t.allowances);
    }
}

/// Minting `value` to `account` and then burning `value` from it restores
/// the state exactly: the supply, and the balance, whose entry is gone again
/// where it was zero before. The burn is covered by the minted balance.
pub proof fn lemma_mint_burn_round_trip(s: FungibleState, account: AccountId, value: u128)
    requires
        s.consistent(),
        s.total_supply + value <= u128::MAX,
    ensures
        s.minted(account, value).balance(account) >= value,
        s.minted(account, value).burned(account, value) == s,
{
    lemma_sum_bounds_one(s.balances, account);
    let t = s.minted(account, value).burned(account, value);
    assert(t.balances =~= s.balances);
}

/// The ledger of a fungible token: balances, allowances and total supply.
///
/// Each mutating method takes the calling account explicitly and returns the
/// events to publish; on an error nothing has changed.
pub struct PSP22Data {
    total_supply: u128,
    balances: VecMap<AccountId, u128>,
    allowances: VecMap<(AccountId, AccountId), u128>,
}

impl View for PSP22Data {
    type V = FungibleState;

    closed spec fn view(&self) -> FungibleState {
        FungibleState {
            total_supply: self.total_supply,
            balances: self.balances@,
            allowances: self.allowances@,
        }
    }
}

impl PSP22Data {
    pub closed spec fn maps_wf(&self) -> bool {
        self.balances.wf() && self.allowances.wf()
    }

    pub open spec fn wf(&self) -> bool {
        self.maps_wf() && self@.consistent()
    }

    /// A ledger whose whole `supply` is held by `creator`.
    pub fn new(supply: u128, creator: AccountId) -> (r: PSP22Data)
        ensures
            r.wf(),
            r@.total_supply == supply,
            r@.balances == with_amount(Map::<AccountId, u128>::empty(), creator, supply),
            r@.allowances == Map::<(AccountId, AccountId), u128>::empty(),
    {
        let mut balances: VecMap<AccountId, u128> = VecMap::new();
        write_amount(&mut balances, creator, supply);
        proof {
            lemma_sum_with_amount(Map::<AccountId, u128>::empty(), creator, supply);
            assert(sum_of(Map::<AccountId, u128>::empty()) == 0);
        }
        PSP22Data { total_supply: supply, balances, allowances: VecMap::new() }
    }

    pub fn total_supply(&self) -> (r: u128)
        requires
            self.wf(),
        ensures
            r == self@.total_supply,
            r == sum_of(self@.balances),
    {
        self.total_supply
    }

    pub fn balance_of(&self, owner: AccountId) -> (r: u128)
        requires
            self.wf(),
        ensures
            r == self@.balance(owner),
    {
        read_amount(&self.balances, &owner)
    }

    pub fn allowance(&self, owner: AccountId, spender: AccountId) -> (r: u128)
        requires
            self.wf(),
        ensures
            r == self@.allowance(owner, spender),
    {
        read_amount(&self.allowances, &(owner, spender))
    }

    /// Moves `value` units between two distinct accounts that hold them.
    fn move_balance(&mut self, from: AccountId, to: AccountId, value: u128)
        requires
            old(self).wf(),
            from != to,
            value <= old(self)@.balance(from),
        ensures
            final(self).wf(),
            final(self)@ == old(self)@.moved(from, to, value),
    {
        let from_balance = read_amount(&self.balances, &from);
        let to_balance = read_amount(&self.balances, &to);
        proof {
            lemma_sum_bounds_pair(self.balances@, from, to);
        }
        let ghost b0 = self.balances@;
        write_amount(&mut self.balances, from, from_balance - value);
        let ghost b1 = self.balances@;
        write_amount(&mut self.balances, to, to_balance + value);
        proof {
            lemma_sum_with_amount(b0, from, (from_balance - value) as u128);
            lemma_sum_with_amount(b1, to, (to_balance + value) as u128);
            assert(amount_of(b1, to) == to_balance);
        }
    }

    /// Transfers `value` units from `caller` to `to`.
    pub fn transfer(&mut self, caller: AccountId, to: AccountId, value: u128) -> (r: Result<
        Vec<PSP22Event>,
        PSP22Error,
    >)
        requires
            old(self).wf(),
        ensures
            final(self).wf(),
            if caller == to || value == 0 {
                emits(r, seq![]) && final(self)@ == old(self)@
            } else if old(self)@.balance(caller) < value {
                r == Err::<Vec<PSP22Event>, PSP22Error>(PSP22Error::InsufficientBalance)
                    && final(self)@ == old(self)@
            } else {
                emits(r, seq![transfer_event(Some(caller), Some(to), value)])
                    && final(self)@ == old(self)@.moved(caller, to, value)
            },
    {
        if caller == to || value == 0 {
            return Ok(Vec::new());
        }
        let from_balance = read_amount(&self.balances, &caller);
        if from_balance < value {
            return Err(PSP22Error::InsufficientBalance);
        }
        self.move_balance(caller, to, value);
        let events = vec![PSP22Event::Transfer(Transfer { from: Some(caller), to: Some(to), value })];
        assert(events@ =~= seq![transfer_event(Some(caller), Some(to), value)]);
        Ok(events)
    }

    /// Transfers `value` units from `from` to `to` on behalf of `caller`,
    /// spending the allowance that `from` granted `caller`; `caller == from`
    /// is an ordinary transfer.
    pub fn transfer_from(
        &mut self,
        caller: AccountId,
        from: AccountId,
        to: AccountId,
        value: u128,
    ) -> (r: Result<Vec<PSP22Event>, PSP22Error>)
        requires
            old(self).wf(),
        ensures
            final(self).wf(),
            if from == to || value == 0 {
                emits(r, seq![]) && final(self)@ == old(self)@
            } else if caller == from {
                if old(self)@.balance(from) < value {
                    r == Err::<Vec<PSP22Event>, PSP22Error>(PSP22Error::InsufficientBalance)
                        && final(self)@ == old(self)@
                } else {
                    emits(r, seq![transfer_event(Some(from), Some(to), value)])
                        && final(self)@ == old(self)@.moved(from, to, value)
                }
            } else if old(self)@.allowance(from, caller) < value {
                r == Err::<Vec<PSP22Event>, PSP22Error>(PSP22Error::InsufficientAllowance)
                    && final(self)@ == old(self)@
            } else if old(self)@.balance(from) < value {
                r == Err::<Vec<PSP22Event>, PSP22Error>(PSP22Error::InsufficientBalance)
                    && final(self)@ == old(self)@
            } else {
                let left = (old(self)@.allowance(from, caller) - value) as u128;
                &&& emits(
                    r,
                    seq![
                        approval_event(from, caller, left),
                        transfer_event(Some(from), Some(to), value),
                    ],
                )
                &&& final(self)@ == old(self)@.with_allowance(from, caller, left).moved(
                    from,
                    to,
                    value,
                )
            },
    {
        if from == to || value == 0 {
            return Ok(Vec::new());
        }
        if caller == from {
            return self.transfer(caller, to, value);
        }
        let allowance = read_amount(&self.allowances, &(from, caller));
        if allowance < value {
            return Err(PSP22Error::InsufficientAllowance);
        }
        let from_balance = read_amount(&self.balances, &from);
        if from_balance < value {
            return Err(PSP22Error::InsufficientBalance);
        }
        let left = allowance - value;
        write_amount(&mut self.allowances, (from, caller), left);
        self.move_balance(from, to, value);
        let events = vec![
            PSP22Event::Approval(Approval { owner: from, spender: caller, amount: left }),
            PSP22Event::Transfer(Transfer { from: Some(from), to: Some(to), value }),
        ];
        assert(events@ =~= seq![
            approval_event(from, caller, left),
            transfer_event(Some(from), Some(to), value),
        ]);
        Ok(events)
    }

    /// Sets the allowance that `owner` grants `spender` to `value`; an
    /// account never holds an allowance from itself.
    pub fn approve(&mut self, owner: AccountId, spender: AccountId, value: u128) -> (r: Result<
        Vec<PSP22Event>,
        PSP22Error,
    >)
        requires
            old(self).wf(),
        ensures
            final(self).wf(),
            final(self)@ == old(self)@.approved(owner, spender, value),
            if owner == spender {
                emits(r, seq![])
            } else {
                emits(r, seq![approval_event(owner, spender, value)])
            },
    {
        if owner == spender {
            return Ok(Vec::new());
        }
        write_amount(&mut self.allowances, (owner, spender), value);
        let events = vec![PSP22Event::Approval(Approval { owner, spender, amount: value })];
        assert(events@ =~= seq![approval_event(owner, spender, value)]);
        Ok(events)
    }

    /// Raises the allowance that `owner` grants `spender` by `delta_value`,
    /// saturating at the largest amount, and reports the resulting amount;
    /// an account never holds an allowance from itself.
    pub fn increase_allowance(
        &mut self,
        owner: AccountId,
        spender: AccountId,
        delta_value: u128,
    ) -> (r: Result<Vec<PSP22Event>, PSP22Error>)
        requires
            old(self).wf(),
        ensures
            final(self).wf(),
            if owner == spender {
                emits(r, seq![]) && final(self)@ == old(self)@
            } else {
                let amount = saturating_sum(old(self)@.allowance(owner, spender), delta_value);
                &&& emits(r, seq![approval_event(owner, spender, amount)])
                &&& final(self)@ == old(self)@.with_allowance(owner, spender, amount)
            },
            delta_value == 0 ==> final(self)@ == old(self)@,
    {
        if owner == spender {
            return Ok(Vec::new());
        }
        let allowance = read_amount(&self.allowances, &(owner, spender));
        let amount = if allowance > u128::MAX - delta_value {
            u128::MAX
        } else {
            allowance + delta_value
        };
        let ghost a0 = self.allowances@;
        write_amount(&mut self.allowances, (owner, spender), amount);
        if delta_value == 0 {
            assert(self.allowances@ =~= a0);
        }
        let events = vec![PSP22Event::Approval(Approval { owner, spender, amount })];
        assert(events@ =~= seq![approval_event(owner, spender, amount)]);
        Ok(events)
    }

    /// Lowers the allowance that `owner` grants `spender` by `delta_value`,
    /// and reports the resulting amount; an account never holds an allowance
    /// from itself.
    pub fn decrease_allowance(
        &mut self,
        owner: AccountId,
        spender: AccountId,
        delta_value: u128,
    ) -> (r: Result<Vec<PSP22Event>, PSP22Error>)
        requires
            old(self).wf(),
        ensures
            final(self).wf(),
            delta_value == 0 ==> final(self)@ == old(self)@,
            if owner == spender {
                emits(r, seq![]) && final(self)@ == old(self)@
            } else if old(self)@.allowance(owner, spender) < delta_value {
                r == Err::<Vec<PSP22Event>, PSP22Error>(PSP22Error::InsufficientAllowance)
                    && final(self)@ == old(self)@
            } else {
                let amount = (old(self)@.allowance(owner, spender) - delta_value) as u128;
                &&& emits(r, seq![approval_event(owner, spender, amount)])
                &&& final(self)@ == old(self)@.with_allowance(owner, spender, amount)
            },
    {
        if owner == spender {
            return Ok(Vec::new());
        }
        let allowance = read_amount(&self.allowances, &(owner, spender));
        if allowance < delta_value {
            return Err(PSP22Error::InsufficientAllowance);
        }
        let amount = allowance - delta_value;
        let ghost a0 = self.allowances@;
        write_amount(&mut self.allowances, (owner, spender), amount);
        if delta_value == 0 {
            assert(self.allowances@ =~= a0);
        }
        let events = vec![PSP22Event::Approval(Approval { owner, spender, amount })];
        assert(events@ =~= seq![approval_event(owner, spender, amount)]);
        Ok(events)
    }

    /// Creates `value` new units held by `to`; the supply may not pass the
    /// largest amount.
    pub fn mint(&mut self, to: AccountId, value: u128) -> (r: Result<Vec<PSP22Event>, PSP22Error>)
        requires
            old(self).wf(),
        ensures
            final(self).wf(),
            if value == 0 {
                emits(r, seq![]) && final(self)@ == old(self)@
            } else if old(self)@.total_supply + value > u128::MAX {
                &&& r matches Err(PSP22Error::Custom(message))
                &&& message@ == supply_ceiling_message()
                &&& final(self)@ == old(self)@
            } else {
                emits(r, seq![transfer_event(None, Some(to), value)])
                    && final(self)@ == old(self)@.minted(to, value)
            },
    {
        if value == 0 {
            return Ok(Vec::new());
        }
        if self.total_supply > u128::MAX - value {
            proof {
                reveal_strlit("Max PSP22 supply exceeded. Max supply limited to 2^128-1.");
            }
            return Err(
                PSP22Error::Custom(
                    "Max PSP22 supply exceeded. Max supply limited to 2^128-1.".to_owned(),
                ),
            );
        }
        let balance = read_amount(&self.balances, &to);
        proof {
            lemma_sum_bounds_one(self.balances@, to);
        }
        let ghost b0 = self.balances@;
        self.total_supply = self.total_supply + value;
        write_amount(&mut self.balances, to, balance + value);
        proof {
            lemma_sum_with_amount(b0, to, (balance + value) as u128);
        }
        let events = vec![PSP22Event::Transfer(Transfer { from: None, to: Some(to), value })];
        assert(events@ =~= seq![transfer_event(None, Some(to), value)]);
        Ok(events)
    }

    /// Destroys `value` units held by `from`.
    pub fn burn(&mut self, from: AccountId, value: u128) -> (r: Result<Vec<PSP22Event>, PSP22Error>)
        requires
            old(self).wf(),
        ensures
            final(self).wf(),
            if value == 0 {
                emits(r, seq![]) && final(self)@ == old(self)@
            } else if old(self)@.balance(from) < value {
                r == Err::<Vec<PSP22Event>, PSP22Error>(PSP22Error::InsufficientBalance)
                    && final(self)@ == old(self)@
            } else {
                emits(r, seq![transfer_event(Some(from), None, value)])
                    && final(self)@ == old(self)@.burned(from, value)
            },
    {
        if value == 0 {
            return Ok(Vec::new());
        }
        let balance = read_amount(&self.balances, &from);
        if balance < value {
            return Err(PSP22Error::InsufficientBalance);
        }
        self.take_balance(from, value);
        let events = vec![PSP22Event::Transfer(Transfer { from: Some(from), to: None, value })];
        assert(events@ =~= seq![transfer_event(Some(from), None, value)]);
        Ok(events)
    }

    /// Destroys `value` units held by `from` on behalf of `caller`, spending
    /// the allowance that `from` granted `caller`.
    pub fn burn_from(&mut self, caller: AccountId, from: AccountId, value: u128) -> (r: Result<
        Vec<PSP22Event>,
        PSP22Error,
    >)
        requires
            old(self).wf(),
        ensures
            final(self).wf(),
            if value == 0 {
                emits(r, seq![]) && final(self)@ == old(self)@
            } else if old(self)@.allowance(from, caller) < value {
                r == Err::<Vec<PSP22Event>, PSP22Error>(PSP22Error::InsufficientAllowance)
                    && final(self)@ == old(self)@
            } else if old(self)@.balance(from) < value {
                r == Err::<Vec<PSP22Event>, PSP22Error>(PSP22Error::InsufficientBalance)
                    && final(self)@ == old(self)@
            } else {
                let left = (old(self)@.allowance(from, caller) - value) as u128;
                &&& emits(r, seq![transfer_event(Some(from), None, value)])
                &&& final(self)@ == old(self)@.with_allowance(from, caller, left).burned(from, value)
            },
    {
        if value == 0 {
            return Ok(Vec::new());
        }
        let allowance = read_amount(&self.allowances, &(from, caller));
        if allowance < value {
            return Err(PSP22Error::InsufficientAllowance);
        }
        let balance = read_amount(&self.balances, &from);
        if balance < value {
            return Err(PSP22Error::InsufficientBalance);
        }
        write_amount(&mut self.allowances, (from, caller), allowance - value);
        self.take_balance(from, value);
        let events = vec![PSP22Event::Transfer(Transfer { from: Some(from), to: None, value })];
        assert(events@ =~= seq![transfer_event(Some(from), None, value)]);
        Ok(events)
    }

    /// The call that pulls `value` units of the peer ledger `underlying`
    /// from `sender` to `contract`, this ledger's own account. Local balances
    /// are untouched: a wrapper credits them only once the call succeeded.
    pub fn deposit(&self, underlying: AccountId, sender: AccountId, contract: AccountId, value: u128) -> (r:
        PeerCall)
        ensures
            (r matches PeerCall::TransferFrom { ledger, from, to, value: v, data } && ledger
                == underlying && from == sender && to == contract && v == value && data@.len() == 0),
    {
        PeerCall::TransferFrom { ledger: underlying, from: sender, to: contract, value, data: Vec::new() }
    }

    /// The call that pushes `value` units of the peer ledger `underlying`
    /// from this ledger's account to `account`. A wrapper debits local
    /// balances before the call is made.
    pub fn withdraw(&self, underlying: AccountId, account: AccountId, value: u128) -> (r: PeerCall)
        ensures
            (r matches PeerCall::Transfer { ledger, to, value: v, data } && ledger == underlying && to
                == account && v == value && data@.len() == 0),
    {
        PeerCall::Transfer { ledger: underlying, to: account, value, data: Vec::new() }
    }

    /// Takes `value` units that `from` holds out of the balances and the supply.
    fn take_balance(&mut self, from: AccountId, value: u128)
        requires
            old(self).wf(),
            value <= old(self)@.balance(from),
        ensures
            final(self).wf(),
            final(self)@ == old(self)@.burned(from, value),
    {
        let balance = read_amount(&self.balances, &from);
        proof {
            lemma_sum_bounds_one(self.balances@, from);
        }
        let ghost b0 = self.balances@;
        write_amount(&mut self.balances, from, balance - value);
        self.total_supply = self.total_supply - value;
        proof {
            lemma_sum_with_amount(b0, from, (balance - value) as u128);
        }
    }
}

/// The message of the error that `mint` returns where the supply would pass
/// the largest amount.
pub open spec fn supply_ceiling_message() -> Seq<char> {
    "Max PSP22 supply exceeded. Max supply limited to 2^128-1."@
}

} // verus!
