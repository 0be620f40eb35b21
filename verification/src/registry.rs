//! The registry: at most one labelled entry per account, coupled to a deposit.
//!
//! An account registers a label by locking the configured fee in the ledger;
//! replacing the label later touches neither the ledger nor the stored
//! deposit, and clearing the label releases exactly the deposit that was
//! locked. Every operation either commits in full or leaves both the registry
//! and the ledger untouched.

use crate::ledger::CurrencyError;
use crate::ledger::Ledger;
use vstd::prelude::*;

verus! {

broadcast use vstd::std_specs::hash::group_hash_axioms;

/// Deployment-time configuration of the registry.
#[derive(Clone, Copy, Debug, PartialEq, Eq, Structural)]
pub struct Config {
    /// The least length a label may have.
    pub min_length: u32,
    /// The greatest length a label may have.
    pub max_length: u32,
    /// The deposit locked when an account first sets a label.
    pub reservation_fee: u64,
}

/// A failure of a registry operation.
#[derive(Clone, Copy, Debug, PartialEq, Eq, Structural)]
pub enum Error {
    /// The label is shorter than the configured minimum.
    TooShort,
    /// The label is longer than the configured maximum.
    TooLong,
    /// The account has no entry to clear.
    Unmemed,
}

/// A failure returned to the dispatcher of a registry operation.
#[derive(Clone, Copy, Debug, PartialEq, Eq, Structural)]
pub enum DispatchError {
    /// A failure of the registry's own rules.
    Module(Error),
    /// A failure reported by the currency ledger, passed on unchanged.
    Currency(CurrencyError),
}

/// An externally observable occurrence, recorded on every successful
/// operation.
#[derive(Clone, Copy, Debug, PartialEq, Eq, Structural)]
pub enum Event {
    /// An account set its label for the first time.
    MemeSet { who: u64 },
    /// An account replaced the label it already had.
    MemeChanged { who: u64 },
    /// An account cleared its label and got its deposit back.
    MemeCleared { who: u64, deposit: u64 },
}

/// The per-account record: the label and the deposit locked for it.
#[derive(Clone, Debug)]
pub struct Entry {
    /// The label bytes; their length obeys the configured bounds.
    pub label: Vec<u8>,
    /// The amount reserved in the ledger when this entry was created.
    pub deposit: u64,
}

/// The registry: a table of at most one `Entry` per account, the
/// configuration it was deployed with, and the log of events it emitted.
pub struct Pallet {
    cfg: Config,
    entries: std::collections::HashMap<u64, Entry>,
    events: Vec<Event>,
}

impl Pallet {
    /// The configuration the registry was deployed with.
    pub closed spec fn config(self) -> Config {
        self.cfg
    }

    /// Whether `who` currently has an entry.
    pub closed spec fn has_entry(self, who: u64) -> bool {
        self.entries@.contains_key(who)
    }

    /// The label bytes of `who`'s entry; meaningful only under `has_entry`.
    pub closed spec fn label_of(self, who: u64) -> Seq<u8> {
        self.entries@[who].label@
    }

    /// The deposit of `who`'s entry; meaningful only under `has_entry`.
    pub closed spec fn deposit_of(self, who: u64) -> u64 {
        self.entries@[who].deposit
    }

    /// The events emitted so far, oldest first.
    pub closed spec fn event_log(self) -> Seq<Event> {
        self.events@
    }

    /// The amount the registry accounts as escrowed for `who`: the deposit of
    /// its entry, or zero when it has none.
    pub open spec fn reserved_for(self, who: u64) -> u64 {
        if self.has_entry(who) {
            self.deposit_of(who)
        } else {
            0
        }
    }

    /// The escrow coupling between registry and ledger: for every account,
    /// the ledger holds in reserve exactly what the registry accounts for it.
    /// An account therefore has an entry exactly when its deposit is held.
    pub open spec fn coupled(self, ledger: Ledger) -> bool {
        forall|who: u64| #[trigger] self.reserved_for(who) == ledger.reserved_of(who)
    }

    /// Every stored label's length lies within the configured bounds.
    pub open spec fn wf(self) -> bool {
        forall|who: u64|
            #[trigger] self.has_entry(who) ==> self.config().min_length as int <= self.label_of(
                who,
            ).len() as int && self.label_of(who).len() as int <= self.config().max_length as int
    }

    /// An empty registry deployed with `cfg`: no entries, no events.
    pub fn new(cfg: Config) -> (p: Pallet)
        ensures
            p.wf(),
            p.config() == cfg,
            forall|who: u64| !(#[trigger] p.has_entry(who)),
            p.event_log() == Seq::<Event>::empty(),
    {
        Pallet { cfg, entries: std::collections::HashMap::new(), events: Vec::new() }
    }

    /// The entry of `who`, if it has one.
    pub fn lookup(&self, who: u64) -> (r: Option<&Entry>)
        ensures
            match r {
                Some(e) => self.has_entry(who) && e.label@ == self.label_of(who) && e.deposit
                    == self.deposit_of(who),
                None => !self.has_entry(who),
            },
    {
        self.entries.get(&who)
    }

    /// Set or replace the label of `who`.
    ///
    /// The label must be at most `max_length` bytes (else `TooLong`) and at
    /// least `min_length` bytes (else `TooShort`). On a first registration
    /// the configured fee is reserved in the ledger and becomes the entry's
    /// deposit; a ledger failure is passed on unchanged. On a replacement
    /// only the label changes: the deposit and the ledger stay as they were.
    /// Exactly one event is recorded on success; on failure neither the
    /// registry nor the ledger changes.
    pub fn set_meme(&mut self, ledger: &mut Ledger, who: u64, meme: Vec<u8>) -> (r: Result<
        (),
        DispatchError,
    >)
        requires
            old(self).wf(),
            old(ledger).wf(),
            old(self).coupled(*old(ledger)),
        ensures
            final(self).wf(),
            final(ledger).wf(),
            final(self).coupled(*final(ledger)),
            final(self).config() == old(self).config(),
            r == Err::<(), DispatchError>(DispatchError::Module(Error::TooLong)) <==> meme@.len()
                as int > old(self).config().max_length as int,
            r == Err::<(), DispatchError>(DispatchError::Module(Error::TooShort)) <==> (meme@.len()
                as int <= old(self).config().max_length as int && (meme@.len() as int) < old(
                self,
            ).config().min_length as int),
            r == Err::<(), DispatchError>(DispatchError::Currency(
                CurrencyError::InsufficientBalance,
            )) <==> (old(self).config().min_length as int <= meme@.len() as int && meme@.len()
                as int <= old(self).config().max_length as int && !old(self).has_entry(who) && old(
                ledger,
            ).free_of(who) < old(self).config().reservation_fee),
            r is Ok <==> (old(self).config().min_length as int <= meme@.len() as int && meme@.len()
                as int <= old(self).config().max_length as int && (old(self).has_entry(who) || old(
                ledger,
            ).free_of(who) >= old(self).config().reservation_fee)),
            r is Err ==> *final(self) == *old(self) && *final(ledger) == *old(ledger),
            r is Ok ==> final(self).has_entry(who) && final(self).label_of(who) == meme@,
            r is Ok && old(self).has_entry(who) ==> final(self).deposit_of(who) == old(
                self,
            ).deposit_of(who) && *final(ledger) == *old(ledger) && final(self).event_log() == old(
                self,
            ).event_log().push(Event::MemeChanged { who }),
            r is Ok && !old(self).has_entry(who) ==> final(self).deposit_of(who) == old(
                self,
            ).config().reservation_fee && final(ledger).free_of(who) == old(ledger).free_of(who)
                - old(self).config().reservation_fee && final(ledger).reserved_of(who) == old(
                ledger,
            ).reserved_of(who) + old(self).config().reservation_fee && final(self).event_log()
                == old(self).event_log().push(Event::MemeSet { who }),
            forall|other: u64|
                other != who ==> #[trigger] final(self).has_entry(other) == old(self).has_entry(
                    other,
                ),
            forall|other: u64|
                other != who && old(self).has_entry(other) ==> #[trigger] final(self).label_of(
                    other,
                ) == old(self).label_of(other) && final(self).deposit_of(other) == old(
                    self,
                ).deposit_of(other),
            forall|other: u64|
                other != who ==> #[trigger] final(ledger).free_of(other) == old(ledger).free_of(
                    other,
                ),
            forall|other: u64|
                other != who ==> #[trigger] final(ledger).reserved_of(other) == old(
                    ledger,
                ).reserved_of(other),
    {
        if meme.len() > self.cfg.max_length as usize {
            return Err(DispatchError::Module(Error::TooLong));
        }
        if meme.len() < self.cfg.min_length as usize {
            return Err(DispatchError::Module(Error::TooShort));
        }
        let deposit: u64;
        match self.entries.get(&who) {
            Some(e) => {
                deposit = e.deposit;
                self.events.push(Event::MemeChanged { who });
            },
            None => {
                deposit = self.cfg.reservation_fee;
                match ledger.reserve(who, deposit) {
                    Ok(()) => {},
                    Err(e) => {
                        return Err(DispatchError::Currency(e));
                    },
                }
                self.events.push(Event::MemeSet { who });
            },
        }
        self.entries.insert(who, Entry { label: meme, deposit });
        proof {
            assert forall|w: u64| self.reserved_for(w) == ledger.reserved_of(w) by {
                assert(old(self).reserved_for(w) == old(ledger).reserved_of(w));
            };
            assert forall|w: u64|
                #[trigger] self.has_entry(w) ==> self.config().min_length as int <= self.label_of(
                    w,
                ).len() as int && self.label_of(w).len() as int
                    <= self.config().max_length as int by {
                if w != who && self.has_entry(w) {
                    assert(old(self).has_entry(w));
                }
            };
        }
        Ok(())
    }

    /// Clear the label of `who`, releasing its deposit.
    ///
    /// Fails with `Unmemed` when `who` has no entry, leaving everything
    /// untouched. On success the entry is removed and exactly its deposit
    /// moves back from the reserved to the free balance of `who`; the escrow
    /// coupling makes a partial release impossible, so the shortfall the
    /// ledger reports is proved to be zero rather than handled.
    pub fn clear_name(&mut self, ledger: &mut Ledger, who: u64) -> (r: Result<(), DispatchError>)
        requires
            old(self).wf(),
            old(ledger).wf(),
            old(self).coupled(*old(ledger)),
        ensures
            final(self).wf(),
            final(ledger).wf(),
            final(self).coupled(*final(ledger)),
            final(self).config() == old(self).config(),
            r is Ok <==> old(self).has_entry(who),
            r is Err ==> r == Err::<(), DispatchError>(DispatchError::Module(Error::Unmemed))
                && *final(self) == *old(self) && *final(ledger) == *old(ledger),
            r is Ok ==> !final(self).has_entry(who) && final(ledger).reserved_of(who) == 0
                && final(ledger).free_of(who) == old(ledger).free_of(who) + old(self).deposit_of(
                who,
            ) && final(self).event_log() == old(self).event_log().push(
                Event::MemeCleared { who, deposit: old(self).deposit_of(who) },
            ),
            forall|other: u64|
                other != who ==> #[trigger] final(self).has_entry(other) == old(self).has_entry(
                    other,
                ),
            forall|other: u64|
                other != who && old(self).has_entry(other) ==> #[trigger] final(self).label_of(
                    other,
                ) == old(self).label_of(other) && final(self).deposit_of(other) == old(
                    self,
                ).deposit_of(other),
            forall|other: u64|
                other != who ==> #[trigger] final(ledger).free_of(other) == old(ledger).free_of(
                    other,
                ),
            forall|other: u64|
                other != who ==> #[trigger] final(ledger).reserved_of(other) == old(
                    ledger,
                ).reserved_of(other),
    {
        let deposit: u64;
        match self.entries.get(&who) {
            Some(e) => {
                deposit = e.deposit;
            },
            None => {
                return Err(DispatchError::Module(Error::Unmemed));
            },
        }
        self.entries.remove(&who);
        proof {
            assert(old(self).reserved_for(who) == old(ledger).reserved_of(who));
        }
        let shortfall = ledger.unreserve(who, deposit);
        assert(shortfall == 0);
        self.events.push(Event::MemeCleared { who, deposit });
        proof {
            assert forall|w: u64| self.reserved_for(w) == ledger.reserved_of(w) by {
                assert(old(self).reserved_for(w) == old(ledger).reserved_of(w));
            };
            assert forall|w: u64|
                #[trigger] self.has_entry(w) ==> self.config().min_length as int <= self.label_of(
                    w,
                ).len() as int && self.label_of(w).len() as int
                    <= self.config().max_length as int by {
                if self.has_entry(w) {
                    assert(old(self).has_entry(w));
                }
            };
        }
        Ok(())
    }

    /// The events emitted so far, oldest first.
    pub fn events(&self) -> (r: &Vec<Event>)
        ensures
            r@ == self.event_log(),
    {
        &self.events
    }
}

/// Escrow coupling: while registry and ledger are coupled, an account with an
/// entry has exactly the entry's deposit held in reserve, and an account
/// without one has nothing held. The coupling is established by `Pallet::new`
/// with a fresh ledger and preserved by `set_meme` and `clear_name`, so this
/// holds after every sequence of those calls.
pub proof fn lemma_escrow_coupling(p: Pallet, l: Ledger, who: u64)
    requires
        p.coupled(l),
    ensures
        p.has_entry(who) ==> l.reserved_of(who) == p.deposit_of(who),
        !p.has_entry(who) ==> l.reserved_of(who) == 0,
{
    assert(p.reserved_for(who) == l.reserved_of(who));
}

/// A registry with no entries is coupled to a ledger with nothing in
/// reserve; in particular a fresh registry and a fresh ledger are coupled.
pub proof fn lemma_empty_coupled(p: Pallet, l: Ledger)
    requires
        forall|who: u64| !(#[trigger] p.has_entry(who)),
        forall|who: u64| #[trigger] l.reserved_of(who) == 0,
    ensures
        p.coupled(l),
{
    assert forall|who: u64| p.reserved_for(who) == l.reserved_of(who) by {
        assert(!p.has_entry(who));
        assert(l.reserved_of(who) == 0);
    };
}

} // verus!
