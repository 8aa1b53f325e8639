//! Laws of the reconciliation core, stated once for all pair streams and
//! proved against the spec model that `run_scan`'s contract is written over.

use vstd::prelude::*;

use crate::classify::Outcome;
use crate::record::{double_record, none_record};
use crate::scan::{
    outcome_count, outcome_of, record_of, records_of, scanned, PairView, RawEntryView,
};

verus! {

/// The five outcomes partition every pair stream completely: the outcome
/// counts of a stream always sum to exactly its length.
pub proof fn lemma_outcomes_partition(s: Seq<PairView>)
    ensures
        outcome_count(s, Outcome::Migrated) + outcome_count(s, Outcome::DoubleBonded)
            + outcome_count(s, Outcome::ControllerOnly) + outcome_count(s, Outcome::StashOnly)
            + outcome_count(s, Outcome::Orphaned) == s.len(),
    decreases s.len(),
{
    if s.len() > 0 {
        lemma_outcomes_partition(s.drop_last());
    }
}

/// A pair whose stash equals its controller, with both ledgers present,
/// always classifies as `Migrated`, never as `DoubleBonded`, and produces no
/// sink record.
pub proof fn lemma_equal_pair_migrated(p: PairView)
    requires
        p.stash == p.controller,
        p.controller_ledger is Some,
        p.stash_ledger is Some,
    ensures
        outcome_of(p) == Outcome::Migrated,
        outcome_of(p) != Outcome::DoubleBonded,
        record_of(p) is None,
{
}

/// A pair whose stash differs from its controller, with both ledgers present,
/// always classifies as `DoubleBonded` and produces exactly one `DOUBLE:`
/// record, holding both hex-encoded identities and both ledger payloads.
pub proof fn lemma_unequal_pair_double_bonded(p: PairView)
    requires
        p.stash != p.controller,
        p.controller_ledger is Some,
        p.stash_ledger is Some,
    ensures
        outcome_of(p) == Outcome::DoubleBonded,
        record_of(p) == Some(
            double_record(p.controller, p.stash, p.controller_ledger->0, p.stash_ledger->0),
        ),
        records_of(seq![p]) == seq![
            double_record(p.controller, p.stash, p.controller_ledger->0, p.stash_ledger->0),
        ],
{
    lemma_records_singleton(p);
}

/// A pair with both ledgers absent always classifies as `Orphaned` and
/// produces exactly one `NONE:` record, holding both hex-encoded identities.
pub proof fn lemma_absent_pair_orphaned(p: PairView)
    requires
        p.controller_ledger is None,
        p.stash_ledger is None,
    ensures
        outcome_of(p) == Outcome::Orphaned,
        record_of(p) == Some(none_record(p.controller, p.stash)),
        records_of(seq![p]) == seq![none_record(p.controller, p.stash)],
{
    lemma_records_singleton(p);
}

/// A one-pair stream produces exactly the record of that pair.
pub proof fn lemma_records_singleton(p: PairView)
    ensures
        records_of(seq![p]) == match record_of(p) {
            Some(text) => seq![text],
            None => Seq::<Seq<char>>::empty(),
        },
{
    assert(seq![p].drop_last() =~= Seq::<PairView>::empty());
    assert(seq![p].last() == p);
    assert(records_of(Seq::<PairView>::empty()) == Seq::<Seq<char>>::empty());
    match record_of(p) {
        Some(text) => {
            assert(records_of(seq![p]) =~= seq![text]);
        },
        None => {
            assert(records_of(seq![p]) =~= Seq::<Seq<char>>::empty());
        },
    }
}

/// A one-pair stream counts exactly that pair, under its own outcome.
pub proof fn lemma_count_singleton(p: PairView, o: Outcome)
    ensures
        outcome_count(seq![p], o) == if outcome_of(p) == o {
            1int
        } else {
            0int
        },
{
    assert(seq![p].drop_last() =~= Seq::<PairView>::empty());
    assert(seq![p].last() == p);
    assert(outcome_count(Seq::<PairView>::empty(), o) == 0);
}

/// Outcome counts add over concatenation of streams.
pub proof fn lemma_count_concat(a: Seq<PairView>, b: Seq<PairView>, o: Outcome)
    ensures
        outcome_count(a + b, o) == outcome_count(a, o) + outcome_count(b, o),
    decreases b.len(),
{
    if b.len() == 0 {
        assert(a + b =~= a);
    } else {
        lemma_count_concat(a, b.drop_last(), o);
        assert((a + b).drop_last() =~= a + b.drop_last());
        assert((a + b).last() == b.last());
    }
}

/// Sink records concatenate over concatenation of streams, in order.
pub proof fn lemma_records_concat(a: Seq<PairView>, b: Seq<PairView>)
    ensures
        records_of(a + b) == records_of(a) + records_of(b),
    decreases b.len(),
{
    if b.len() == 0 {
        assert(a + b =~= a);
        assert(records_of(a) + records_of(b) =~= records_of(a));
    } else {
        lemma_records_concat(a, b.drop_last());
        assert((a + b).drop_last() =~= a + b.drop_last());
        assert((a + b).last() == b.last());
        let tail = match record_of(b.last()) {
            Some(text) => seq![text],
            None => Seq::<Seq<char>>::empty(),
        };
        assert(records_of(a) + records_of(b.drop_last()) + tail =~= records_of(a) + (records_of(
            b.drop_last(),
        ) + tail));
    }
}

/// Cursor semantics: a full run over a stream splits, at any point `m`, into
/// a run over the first `m` pairs and a run over the rest. Each pair is
/// counted by exactly one of the two parts, every counter adds up, and the
/// records of the two parts concatenate, in order, to the records of the full
/// run.
pub proof fn lemma_cursor_split(s: Seq<PairView>, m: int)
    requires
        0 <= m <= s.len(),
    ensures
        forall|o: Outcome|
            outcome_count(s, o) == outcome_count(s.take(m), o) + outcome_count(s.skip(m), o),
        records_of(s) == records_of(s.take(m)) + records_of(s.skip(m)),
{
    assert(s =~= s.take(m) + s.skip(m));
    assert forall|o: Outcome|
        outcome_count(s, o) == outcome_count(s.take(m), o) + outcome_count(s.skip(m), o) by {
        lemma_count_concat(s.take(m), s.skip(m), o);
    }
    lemma_records_concat(s.take(m), s.skip(m));
}

/// Cursor semantics, one step: the run with cursor `k` counts exactly the
/// pair at `k` beyond what the run with cursor `k + 1` counts — no pair is
/// ever counted by both runs' distinct parts, and pair `k` is counted once.
pub proof fn lemma_cursor_advance(s: Seq<PairView>, k: int)
    requires
        0 <= k < s.len(),
    ensures
        forall|o: Outcome|
            outcome_count(s.skip(k), o) == outcome_count(s.skip(k + 1), o) + (if outcome_of(s[k])
                == o {
                1int
            } else {
                0int
            }),
        records_of(s.skip(k)) == (match record_of(s[k]) {
            Some(text) => seq![text],
            None => Seq::<Seq<char>>::empty(),
        }) + records_of(s.skip(k + 1)),
{
    assert(s.skip(k) =~= seq![s[k]] + s.skip(k + 1));
    assert forall|o: Outcome|
        outcome_count(s.skip(k), o) == outcome_count(s.skip(k + 1), o) + (if outcome_of(s[k]) == o {
            1int
        } else {
            0int
        }) by {
        lemma_count_concat(seq![s[k]], s.skip(k + 1), o);
        lemma_count_singleton(s[k], o);
    }
    lemma_records_concat(seq![s[k]], s.skip(k + 1));
    lemma_records_singleton(s[k]);
}

/// A run with cursor `c` classifies exactly the pairs that a cursor-zero run
/// classifies from position `c` on: resuming reprocesses nothing and skips
/// nothing at or after the cursor.
pub proof fn lemma_scanned_skip(s: Seq<RawEntryView>, c: int, n: int)
    requires
        0 <= c <= n == s.len(),
    ensures
        scanned(s, c, n) == scanned(s, 0, n).skip(c),
{
    assert(scanned(s, c, n) =~= scanned(s, 0, n).skip(c));
}

} // verus!
