//! A model of the currency ledger that holds each account's balance.
//!
//! Every account has a free balance and a reserved balance. Reserving moves
//! funds from free to reserved and fails when the free balance is too small;
//! unreserving moves funds back and reports the shortfall when more was asked
//! for than was reserved. The registry uses this ledger to escrow deposits.

use vstd::prelude::*;

verus! {

broadcast use vstd::std_specs::hash::group_hash_axioms;

/// A failure reported by the ledger when a reservation cannot be made.
#[derive(Clone, Copy, Debug, PartialEq, Eq, Structural)]
pub enum CurrencyError {
    /// The account's free balance is smaller than the amount to reserve.
    InsufficientBalance,
}

/// The balances held for one account.
#[derive(Clone, Copy, Debug)]
struct AccountData {
    free: u64,
    reserved: u64,
}

/// Per-account balances, each split into a free and a reserved part.
///
/// An account that was never touched holds zero in both parts. The total
/// balance of an account (free plus reserved) always fits in a `u64`.
pub struct Ledger {
    accounts: std::collections::HashMap<u64, AccountData>,
}

impl Ledger {
    /// The free balance of `who`; zero for an untouched account.
    pub closed spec fn free_of(self, who: u64) -> u64 {
        if self.accounts@.contains_key(who) {
            self.accounts@[who].free
        } else {
            0
        }
    }

    /// The reserved balance of `who`; zero for an untouched account.
    pub closed spec fn reserved_of(self, who: u64) -> u64 {
        if self.accounts@.contains_key(who) {
            self.accounts@[who].reserved
        } else {
            0
        }
    }

    /// Every account's total balance fits in a `u64`.
    pub open spec fn wf(self) -> bool {
        forall|who: u64|
            #![trigger self.free_of(who)]
            #![trigger self.reserved_of(who)]
            self.free_of(who) as int + self.reserved_of(who) as int <= u64::MAX as int
    }

    /// An empty ledger: every balance is zero.
    pub fn new() -> (l: Ledger)
        ensures
            l.wf(),
            forall|who: u64| #[trigger] l.free_of(who) == 0,
            forall|who: u64| #[trigger] l.reserved_of(who) == 0,
    {
        Ledger { accounts: std::collections::HashMap::new() }
    }

    /// Set the free balance of `who`, leaving its reserved balance alone.
    pub fn set_free_balance(&mut self, who: u64, amount: u64)
        requires
            old(self).wf(),
            amount as int + old(self).reserved_of(who) as int <= u64::MAX as int,
        ensures
            final(self).wf(),
            final(self).free_of(who) == amount,
            final(self).reserved_of(who) == old(self).reserved_of(who),
            forall|other: u64|
                other != who ==> #[trigger] final(self).free_of(other) == old(self).free_of(other),
            forall|other: u64|
                other != who ==> #[trigger] final(self).reserved_of(other) == old(
                    self,
                ).reserved_of(other),
    {
        let reserved = match self.accounts.get(&who) {
            Some(a) => a.reserved,
            None => 0,
        };
        self.accounts.insert(who, AccountData { free: amount, reserved });
        proof {
            assert forall|w: u64|
                self.free_of(w) as int + self.reserved_of(w) as int <= u64::MAX as int by {
                assert(old(self).free_of(w) as int + old(self).reserved_of(w) as int
                    <= u64::MAX as int);
            };
        }
    }

    /// Move `amount` from the free to the reserved balance of `who`.
    ///
    /// Succeeds exactly when the free balance covers `amount`; on failure
    /// nothing changes.
    pub fn reserve(&mut self, who: u64, amount: u64) -> (r: Result<(), CurrencyError>)
        requires
            old(self).wf(),
        ensures
            final(self).wf(),
            r is Ok <==> old(self).free_of(who) >= amount,
            r is Err ==> r == Err::<(), CurrencyError>(CurrencyError::InsufficientBalance)
                && *final(self) == *old(self),
            r is Ok ==> final(self).free_of(who) == old(self).free_of(who) - amount
                && final(self).reserved_of(who) == old(self).reserved_of(who) + amount,
            forall|other: u64|
                other != who ==> #[trigger] final(self).free_of(other) == old(self).free_of(other),
            forall|other: u64|
                other != who ==> #[trigger] final(self).reserved_of(other) == old(
                    self,
                ).reserved_of(other),
    {
        let (free, reserved) = match self.accounts.get(&who) {
            Some(a) => (a.free, a.reserved),
            None => (0u64, 0u64),
        };
        if free >= amount {
            proof {
                assert(old(self).free_of(who) as int + old(self).reserved_of(who) as int
                    <= u64::MAX as int);
            }
            self.accounts.insert(who, AccountData { free: free - amount, reserved: reserved + amount });
            proof {
                assert forall|w: u64|
                    self.free_of(w) as int + self.reserved_of(w) as int <= u64::MAX as int by {
                    assert(old(self).free_of(w) as int + old(self).reserved_of(w) as int
                        <= u64::MAX as int);
                };
            }
            Ok(())
        } else {
            Err(CurrencyError::InsufficientBalance)
        }
    }

    /// Move up to `amount` from the reserved to the free balance of `who`.
    ///
    /// Returns the shortfall: the part of `amount` that was not reserved and
    /// so could not be moved. A zero shortfall means the full amount was
    /// released.
    pub fn unreserve(&mut self, who: u64, amount: u64) -> (shortfall: u64)
        requires
            old(self).wf(),
        ensures
            final(self).wf(),
            shortfall == if amount <= old(self).reserved_of(who) {
                0int
            } else {
                amount - old(self).reserved_of(who)
            },
            final(self).reserved_of(who) == old(self).reserved_of(who) - (amount - shortfall),
            final(self).free_of(who) == old(self).free_of(who) + (amount - shortfall),
            forall|other: u64|
                other != who ==> #[trigger] final(self).free_of(other) == old(self).free_of(other),
            forall|other: u64|
                other != who ==> #[trigger] final(self).reserved_of(other) == old(
                    self,
                ).reserved_of(other),
    {
        let (free, reserved) = match self.accounts.get(&who) {
            Some(a) => (a.free, a.reserved),
            None => (0u64, 0u64),
        };
        proof {
            assert(old(self).free_of(who) as int + old(self).reserved_of(who) as int
                <= u64::MAX as int);
        }
        let moved = if amount <= reserved {
            amount
        } else {
            reserved
        };
        self.accounts.insert(who, AccountData { free: free + moved, reserved: reserved - moved });
        proof {
            assert forall|w: u64|
                self.free_of(w) as int + self.reserved_of(w) as int <= u64::MAX as int by {
                assert(old(self).free_of(w) as int + old(self).reserved_of(w) as int
                    <= u64::MAX as int);
            };
        }
        amount - moved
    }

    /// The free balance of `who`.
    pub fn free_balance(&self, who: u64) -> (r: u64)
        ensures
            r == self.free_of(who),
    {
        match self.accounts.get(&who) {
            Some(a) => a.free,
            None => 0,
        }
    }

    /// The reserved balance of `who`.
    pub fn reserved_balance(&self, who: u64) -> (r: u64)
        ensures
            r == self.reserved_of(who),
    {
        match self.accounts.get(&who) {
            Some(a) => a.reserved,
            None => 0,
        }
    }
}

} // verus!
