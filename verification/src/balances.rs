//! The Balances pallet: a ledger from account names to unsigned balances,
//! with checked transfers that either move the full amount or change nothing.

use vstd::prelude::*;

use crate::store;
use crate::support::{DispatchError, DispatchResult};

verus! {

/// The balance an account holds in a balance ledger: zero when absent.
pub open spec fn balance_from(balances: Map<Seq<char>, u128>, who: Seq<char>) -> u128 {
    if balances.contains_key(who) {
        balances[who]
    } else {
        0
    }
}

/// What a transfer does to a balance ledger: the new ledger and the outcome.
/// Both balances are read, and both checks made, before anything is
/// written; a successful transfer from an account to itself changes
/// nothing, so conservation holds for every successful transfer.
pub open spec fn transfer_spec(
    balances: Map<Seq<char>, u128>,
    from: Seq<char>,
    to: Seq<char>,
    amount: u128,
) -> (Map<Seq<char>, u128>, DispatchResult) {
    let from_balance = balance_from(balances, from);
    let to_balance = balance_from(balances, to);
    if from_balance < amount {
        (balances, Err(DispatchError::InsufficientFunds))
    } else if to_balance + amount > u128::MAX {
        (balances, Err(DispatchError::Overflow))
    } else if from == to {
        (balances, Ok(()))
    } else {
        (
            balances.insert(from, (from_balance - amount) as u128).insert(
                to,
                (to_balance + amount) as u128,
            ),
            Ok(()),
        )
    }
}

/// The sum of the balances the ledger holds for the listed accounts.
pub open spec fn total_of(balances: Map<Seq<char>, u128>, accounts: Seq<Seq<char>>) -> int
    decreases accounts.len(),
{
    if accounts.len() == 0 {
        0
    } else {
        total_of(balances, accounts.drop_last()) + balance_from(balances, accounts.last())
    }
}

/// The Balances pallet: the balance ledger.
#[derive(Debug)]
pub struct Pallet {
    balances: Vec<(String, u128)>,
}

/// The calls the Balances pallet exposes to extrinsics.
pub enum Call {
    Transfer { to: String, amount: u128 },
}

impl Pallet {
    /// The balance ledger never stores an account twice.
    pub closed spec fn wf(self) -> bool {
        store::keys_distinct(self.balances@)
    }

    /// The ledger as a map from account names to balances.
    pub closed spec fn balances_map(self) -> Map<Seq<char>, u128> {
        store::map_of(self.balances@)
    }

    /// Create a new instance of the Balances pallet: an empty ledger.
    pub fn new() -> (p: Pallet)
        ensures
            p.wf(),
            p.balances_map() == Map::<Seq<char>, u128>::empty(),
    {
        Pallet { balances: Vec::new() }
    }

    /// Set the balance of account `who` to `amount`, inserting or
    /// overwriting its ledger entry.
    pub fn set_balance(&mut self, who: &String, amount: u128)
        requires
            old(self).wf(),
        ensures
            final(self).wf(),
            final(self).balances_map() == old(self).balances_map().insert(who@, amount),
    {
        store::upsert(&mut self.balances, who.clone(), amount);
    }

    /// Get the balance of account `who`: zero if the ledger has no entry.
    pub fn balance(&self, who: &String) -> (r: u128)
        requires
            self.wf(),
        ensures
            r == balance_from(self.balances_map(), who@),
    {
        match store::lookup(&self.balances, who) {
            Some(b) => *b,
            None => 0,
        }
    }

    /// Transfer `amount` from `caller` to `to`. Fails with
    /// `InsufficientFunds` when `caller` holds less than `amount`, and with
    /// `Overflow` when `to`'s balance cannot grow by `amount`; on failure
    /// the ledger is untouched. A successful transfer moves exactly
    /// `amount` between two distinct accounts and changes nothing when
    /// `caller` and `to` are the same account.
    pub fn transfer(&mut self, caller: String, to: String, amount: u128) -> (r: DispatchResult)
        requires
            old(self).wf(),
        ensures
            final(self).wf(),
            final(self).balances_map() == transfer_spec(
                old(self).balances_map(),
                caller@,
                to@,
                amount,
            ).0,
            r == transfer_spec(old(self).balances_map(), caller@, to@, amount).1,
            r is Err ==> *final(self) == *old(self),
            r is Ok && caller@ == to@ ==> *final(self) == *old(self),
            r is Ok && caller@ != to@ ==> {
                &&& balance_from(final(self).balances_map(), caller@) == balance_from(
                    old(self).balances_map(),
                    caller@,
                ) - amount
                &&& balance_from(final(self).balances_map(), to@) == balance_from(
                    old(self).balances_map(),
                    to@,
                ) + amount
            },
    {
        let caller_balance = self.balance(&caller);
        let to_balance = self.balance(&to);

        let new_caller_balance = match caller_balance.checked_sub(amount) {
            Some(b) => b,
            None => {
                return Err(DispatchError::InsufficientFunds);
            },
        };
        let new_to_balance = match to_balance.checked_add(amount) {
            Some(b) => b,
            None => {
                return Err(DispatchError::Overflow);
            },
        };
        if caller.eq(&to) {
            return Ok(());
        }

        self.set_balance(&caller, new_caller_balance);
        self.set_balance(&to, new_to_balance);

        Ok(())
    }

    /// Route a Balances call to the pallet method that owns it, on behalf of
    /// `caller`.
    pub fn dispatch(&mut self, caller: String, call: Call) -> (r: DispatchResult)
        requires
            old(self).wf(),
        ensures
            final(self).wf(),
            ({
                let outcome = dispatch_spec(old(self).balances_map(), caller@, call@);
                final(self).balances_map() == outcome.0 && r == outcome.1
            }),
    {
        match call {
            Call::Transfer { to, amount } => {
                let r = self.transfer(caller, to, amount)?;
            },
        }
        Ok(())
    }
}

/// The view of a Balances call: its fields as mathematical values.
pub enum CallView {
    Transfer { to: Seq<char>, amount: u128 },
}

impl View for Call {
    type V = CallView;

    open spec fn view(&self) -> CallView {
        match self {
            Call::Transfer { to, amount } => CallView::Transfer { to: to@, amount: *amount },
        }
    }
}

/// What dispatching a Balances call does to the balance ledger.
pub open spec fn dispatch_spec(
    balances: Map<Seq<char>, u128>,
    caller: Seq<char>,
    call: CallView,
) -> (Map<Seq<char>, u128>, DispatchResult) {
    match call {
        CallView::Transfer { to, amount } => transfer_spec(balances, caller, to, amount),
    }
}

/// Writing one listed account's balance changes the total by the difference
/// at that account, provided the accounts are listed once each.
proof fn lemma_total_of_insert(
    balances: Map<Seq<char>, u128>,
    accounts: Seq<Seq<char>>,
    who: Seq<char>,
    amount: u128,
)
    requires
        accounts.no_duplicates(),
    ensures
        total_of(balances.insert(who, amount), accounts) == if accounts.contains(who) {
            total_of(balances, accounts) + amount - balance_from(balances, who)
        } else {
            total_of(balances, accounts)
        },
    decreases accounts.len(),
{
    if accounts.len() > 0 {
        let prefix = accounts.drop_last();
        assert(prefix.no_duplicates());
        lemma_total_of_insert(balances, prefix, who, amount);
        if accounts.contains(who) {
            let i = choose|i: int| 0 <= i < accounts.len() && accounts[i] == who;
            if i == accounts.len() - 1 {
                assert(!prefix.contains(who)) by {
                    if prefix.contains(who) {
                        let j = choose|j: int| 0 <= j < prefix.len() && prefix[j] == who;
                        assert(accounts[j] == accounts[accounts.len() - 1]);
                    }
                }
            } else {
                assert(prefix.contains(who)) by {
                    assert(prefix[i] == who);
                }
                assert(accounts.last() != who);
            }
        } else {
            assert(!prefix.contains(who)) by {
                if prefix.contains(who) {
                    let j = choose|j: int| 0 <= j < prefix.len() && prefix[j] == who;
                    assert(accounts[j] == who);
                }
            }
            assert(accounts.last() != who);
        }
    }
}

/// Conservation: a successful transfer leaves the sum of balances over any
/// duplicate-free list of accounts naming both the sender and the receiver
/// unchanged — and so does any sequence of successful transfers.
pub proof fn lemma_transfer_conserves_total(
    balances: Map<Seq<char>, u128>,
    from: Seq<char>,
    to: Seq<char>,
    amount: u128,
    accounts: Seq<Seq<char>>,
)
    requires
        transfer_spec(balances, from, to, amount).1 is Ok,
        accounts.no_duplicates(),
        accounts.contains(from),
        accounts.contains(to),
    ensures
        total_of(transfer_spec(balances, from, to, amount).0, accounts) == total_of(
            balances,
            accounts,
        ),
{
    if from != to {
        let from_balance = balance_from(balances, from);
        let to_balance = balance_from(balances, to);
        let mid = balances.insert(from, (from_balance - amount) as u128);
        lemma_total_of_insert(balances, accounts, from, (from_balance - amount) as u128);
        assert(balance_from(mid, to) == to_balance);
        lemma_total_of_insert(mid, accounts, to, (to_balance + amount) as u128);
    }
}

} // verus!
