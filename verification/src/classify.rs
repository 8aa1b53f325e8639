//! The five-way classification of a bonded pair and the running counters.
//!
//! For each pair the scan fetches the staking ledger of the controller and of
//! the stash, independently, at one fixed chain state. Presence or absence of
//! the two records, with an identity-equality tie-break in the both-present
//! case, places the pair in exactly one of five outcomes.

use vstd::prelude::*;

use crate::identity::BondedPair;

verus! {

/// An opaque staking-ledger payload. The core never reads its fields: it is a
/// presence token whose rendered text is logged verbatim in anomaly records.
pub struct LedgerRecord {
    text: String,
}

impl View for LedgerRecord {
    type V = Seq<char>;

    closed spec fn view(&self) -> Seq<char> {
        self.text@
    }
}

impl LedgerRecord {
    /// Wraps the rendered text of a ledger payload.
    pub fn new(text: String) -> (r: LedgerRecord)
        ensures
            r@ == text@,
    {
        LedgerRecord { text }
    }

    /// The rendered text, exactly as it was wrapped.
    pub fn text(&self) -> (r: &str)
        ensures
            r@ == self@,
    {
        self.text.as_str()
    }
}

/// The outcome of classifying one bonded pair. The five outcomes partition
/// the pairs completely: every pair falls in exactly one.
#[derive(Clone, Copy, Debug, PartialEq, Eq, Structural)]
pub enum Outcome {
    /// Both ledgers present and stash equals controller: the pair already
    /// complies with the unified model.
    Migrated,
    /// Both ledgers present and stash differs from controller: the anomaly
    /// this audit exists to find.
    DoubleBonded,
    /// Only the controller holds a ledger.
    ControllerOnly,
    /// Only the stash holds a ledger.
    StashOnly,
    /// Neither identity holds a ledger.
    Orphaned,
}

/// The classification table. The identity-equality tie-break is consulted
/// only in the both-present case.
pub open spec fn classify_spec(
    stash: Seq<u8>,
    controller: Seq<u8>,
    has_controller_ledger: bool,
    has_stash_ledger: bool,
) -> Outcome {
    if has_controller_ledger && has_stash_ledger {
        if stash == controller {
            Outcome::Migrated
        } else {
            Outcome::DoubleBonded
        }
    } else if has_controller_ledger {
        Outcome::ControllerOnly
    } else if has_stash_ledger {
        Outcome::StashOnly
    } else {
        Outcome::Orphaned
    }
}

/// Classifies one pair from the two ledger lookup results. Absence of a
/// ledger is a valid lookup result, never an error.
pub fn classify(
    pair: &BondedPair,
    controller_ledger: &Option<LedgerRecord>,
    stash_ledger: &Option<LedgerRecord>,
) -> (r: Outcome)
    ensures
        r == classify_spec(
            pair.stash@,
            pair.controller@,
            controller_ledger.is_some(),
            stash_ledger.is_some(),
        ),
{
    match (controller_ledger, stash_ledger) {
        (Some(_), Some(_)) => {
            if pair.stash.same_as(&pair.controller) {
                Outcome::Migrated
            } else {
                Outcome::DoubleBonded
            }
        },
        (Some(_), None) => Outcome::ControllerOnly,
        (None, Some(_)) => Outcome::StashOnly,
        (None, None) => Outcome::Orphaned,
    }
}

/// The five running counters, one per outcome. Owned by the scan alone; no
/// ambient state.
#[derive(Clone, Copy, Debug, PartialEq, Eq, Structural)]
pub struct Counters {
    pub migrated: u64,
    pub double_bonded: u64,
    pub controller_only: u64,
    pub stash_only: u64,
    pub orphaned: u64,
}

impl Counters {
    /// The counter that belongs to one outcome.
    pub open spec fn count_of(self, o: Outcome) -> int {
        match o {
            Outcome::Migrated => self.migrated as int,
            Outcome::DoubleBonded => self.double_bonded as int,
            Outcome::ControllerOnly => self.controller_only as int,
            Outcome::StashOnly => self.stash_only as int,
            Outcome::Orphaned => self.orphaned as int,
        }
    }

    /// The sum of the five counters.
    pub open spec fn total(self) -> int {
        self.migrated + self.double_bonded + self.controller_only + self.stash_only
            + self.orphaned
    }

    /// All five counters at zero.
    pub fn new() -> (r: Counters)
        ensures
            r.total() == 0,
            forall|o: Outcome| r.count_of(o) == 0,
    {
        Counters { migrated: 0, double_bonded: 0, controller_only: 0, stash_only: 0, orphaned: 0 }
    }

    /// Increments exactly the counter of the given outcome.
    pub fn record(&mut self, o: Outcome)
        requires
            old(self).total() < u64::MAX,
        ensures
            final(self).count_of(o) == old(self).count_of(o) + 1,
            forall|p: Outcome| p != o ==> final(self).count_of(p) == old(self).count_of(p),
            final(self).total() == old(self).total() + 1,
    {
        match o {
            Outcome::Migrated => {
                self.migrated += 1;
            },
            Outcome::DoubleBonded => {
                self.double_bonded += 1;
            },
            Outcome::ControllerOnly => {
                self.controller_only += 1;
            },
            Outcome::StashOnly => {
                self.stash_only += 1;
            },
            Outcome::Orphaned => {
                self.orphaned += 1;
            },
        }
    }
}

} // verus!
