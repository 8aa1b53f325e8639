//! The resumable scan over the bonded map: the reconciliation core.
//!
//! The scan walks the pair stream in order. Elements before the cursor are
//! skipped without decoding and without ledger lookups; every element at or
//! after the cursor is decoded, classified, counted, and — for the two
//! anomalous outcomes — rendered into a sink record. A decode failure aborts
//! the scan at that element, before its counter is touched.

use vstd::prelude::*;

use crate::classify::{classify, classify_spec, Counters, LedgerRecord, Outcome};
use crate::identity::{decode_pair, BondedPair, DecodeError, IDENTITY_LEN};
use crate::record::{double_record, none_record, render_double, render_none};

verus! {

/// The mathematical model of one pair at or after the cursor: the two
/// identities and the two ledger lookup results, payloads as text.
pub struct PairView {
    pub stash: Seq<u8>,
    pub controller: Seq<u8>,
    pub controller_ledger: Option<Seq<char>>,
    pub stash_ledger: Option<Seq<char>>,
}

/// The model of a ledger lookup result.
pub open spec fn ledger_view(l: Option<LedgerRecord>) -> Option<Seq<char>> {
    match l {
        Some(rec) => Some(rec@),
        None => None,
    }
}

/// The outcome of one modelled pair.
pub open spec fn outcome_of(p: PairView) -> Outcome {
    classify_spec(p.stash, p.controller, p.controller_ledger is Some, p.stash_ledger is Some)
}

/// The sink record of one modelled pair: a `DOUBLE:` block for a
/// double-bonded pair, a `NONE:` block for an orphaned one, nothing else.
pub open spec fn record_of(p: PairView) -> Option<Seq<char>> {
    match outcome_of(p) {
        Outcome::DoubleBonded => match (p.controller_ledger, p.stash_ledger) {
            (Some(cl), Some(sl)) => Some(double_record(p.controller, p.stash, cl, sl)),
            _ => None,
        },
        Outcome::Orphaned => Some(none_record(p.controller, p.stash)),
        _ => None,
    }
}

/// How many pairs of a stream fall under one outcome.
pub open spec fn outcome_count(s: Seq<PairView>, o: Outcome) -> int
    decreases s.len(),
{
    if s.len() == 0 {
        0
    } else {
        outcome_count(s.drop_last(), o) + if outcome_of(s.last()) == o {
            1int
        } else {
            0int
        }
    }
}

/// The sink records of a stream, in stream order.
pub open spec fn records_of(s: Seq<PairView>) -> Seq<Seq<char>>
    decreases s.len(),
{
    if s.len() == 0 {
        Seq::empty()
    } else {
        records_of(s.drop_last()) + match record_of(s.last()) {
            Some(text) => seq![text],
            None => Seq::empty(),
        }
    }
}

/// One raw element of the pair stream, paired with the two ledger lookup
/// results that the resolver returned for it.
pub struct RawEntry {
    pub raw_key: Vec<u8>,
    pub raw_value: Vec<u8>,
    pub controller_ledger: Option<LedgerRecord>,
    pub stash_ledger: Option<LedgerRecord>,
}

/// The model of one raw element.
pub struct RawEntryView {
    pub key: Seq<u8>,
    pub value: Seq<u8>,
    pub controller_ledger: Option<Seq<char>>,
    pub stash_ledger: Option<Seq<char>>,
}

impl View for RawEntry {
    type V = RawEntryView;

    open spec fn view(&self) -> RawEntryView {
        RawEntryView {
            key: self.raw_key@,
            value: self.raw_value@,
            controller_ledger: ledger_view(self.controller_ledger),
            stash_ledger: ledger_view(self.stash_ledger),
        }
    }
}

/// Whether a raw element decodes: the key holds at least 32 bytes, the value
/// exactly 32.
pub open spec fn raw_decodes(e: RawEntryView) -> bool {
    e.key.len() >= IDENTITY_LEN && e.value.len() == IDENTITY_LEN
}

/// The decoded model of a raw element: the key's trailing 32 bytes as stash,
/// the value as controller.
pub open spec fn raw_pair(e: RawEntryView) -> PairView {
    PairView {
        stash: e.key.subrange(e.key.len() - IDENTITY_LEN, e.key.len() as int),
        controller: e.value,
        controller_ledger: e.controller_ledger,
        stash_ledger: e.stash_ledger,
    }
}

/// The models of a sequence of raw elements.
pub open spec fn views_of(s: Seq<RawEntry>) -> Seq<RawEntryView> {
    s.map_values(|e: RawEntry| e@)
}

/// The decoded models of the elements of `s` from `cursor` up to `to`
/// exclusive: the part of the stream that a run reaching position `to`
/// has classified.
pub open spec fn scanned(s: Seq<RawEntryView>, cursor: int, to: int) -> Seq<PairView> {
    if cursor <= to {
        s.subrange(cursor, to).map_values(|e: RawEntryView| raw_pair(e))
    } else {
        Seq::empty()
    }
}

/// A sink extended only at its end: every old record unchanged in place, the
/// given new records appended after them, nothing else.
pub open spec fn appended(
    old_sink: Seq<String>,
    new_sink: Seq<String>,
    recs: Seq<Seq<char>>,
) -> bool {
    &&& new_sink.len() == old_sink.len() + recs.len()
    &&& forall|i: int| 0 <= i < old_sink.len() ==> new_sink[i] == old_sink[i]
    &&& forall|i: int| 0 <= i < recs.len() ==> new_sink[old_sink.len() + i]@ == recs[i]
}

/// The scan's mutable state: where it stands in the stream, where counting
/// begins, and the five counters.
#[derive(Debug)]
pub struct ScanState {
    /// The position at or after which elements are classified.
    pub cursor: usize,
    /// The zero-based ordinal of the next stream element.
    pub position: usize,
    /// The five outcome counters.
    pub counters: Counters,
}

impl ScanState {
    /// How many elements a scan standing at `position` has classified.
    pub open spec fn processed(self) -> int {
        if self.position >= self.cursor {
            self.position - self.cursor
        } else {
            0
        }
    }

    /// The scan's invariant: the five counters sum to exactly the number of
    /// pairs seen at or after the cursor.
    pub open spec fn wf(self) -> bool {
        self.counters.total() == self.processed()
    }

    /// A scan at position zero with all counters zero.
    pub fn new(cursor: usize) -> (r: ScanState)
        ensures
            r.cursor == cursor,
            r.position == 0,
            r.wf(),
            forall|o: Outcome| r.counters.count_of(o) == 0,
    {
        ScanState { cursor, position: 0, counters: Counters::new() }
    }

    /// Whether the element at the current position is still before the
    /// cursor, to be skipped without decoding or lookups.
    pub fn pending_skip(&self) -> (r: bool)
        ensures
            r == (self.position < self.cursor),
    {
        self.position < self.cursor
    }

    /// Passes over one pre-cursor element: no decode, no lookups, no counter.
    /// Returns whether a compact progress marker is due, one every hundred
    /// skipped elements.
    pub fn note_skipped(&mut self) -> (mark: bool)
        requires
            old(self).position < old(self).cursor,
        ensures
            final(self).cursor == old(self).cursor,
            final(self).position == old(self).position + 1,
            final(self).counters == old(self).counters,
            old(self).wf() ==> final(self).wf(),
            mark == ((old(self).position + 1) % 100 == 0),
    {
        self.position += 1;
        self.position % 100 == 0
    }

    /// Classifies one pair at or after the cursor: increments exactly the
    /// counter of its outcome, advances the position, and returns the outcome
    /// together with the sink record the pair produces, if any.
    pub fn process_pair(
        &mut self,
        pair: &BondedPair,
        controller_ledger: &Option<LedgerRecord>,
        stash_ledger: &Option<LedgerRecord>,
    ) -> (r: (Outcome, Option<String>))
        requires
            old(self).wf(),
            old(self).position >= old(self).cursor,
            old(self).position < usize::MAX,
        ensures
            final(self).cursor == old(self).cursor,
            final(self).position == old(self).position + 1,
            final(self).wf(),
            r.0 == outcome_of(pair_view(pair, controller_ledger, stash_ledger)),
            final(self).counters.count_of(r.0) == old(self).counters.count_of(r.0) + 1,
            forall|p: Outcome|
                p != r.0 ==> final(self).counters.count_of(p) == old(self).counters.count_of(p),
            match record_of(pair_view(pair, controller_ledger, stash_ledger)) {
                Some(text) => r.1 is Some && r.1->0@ == text,
                None => r.1 is None,
            },
    {
        let outcome = classify(pair, controller_ledger, stash_ledger);
        self.counters.record(outcome);
        self.position += 1;
        let rec: Option<String> = match (outcome, controller_ledger, stash_ledger) {
            (Outcome::DoubleBonded, Some(cl), Some(sl)) => Some(render_double(pair, cl, sl)),
            (Outcome::Orphaned, _, _) => Some(render_none(pair)),
            _ => None,
        };
        (outcome, rec)
    }
}

/// The model of a decoded pair with its two lookup results.
pub open spec fn pair_view(
    pair: &BondedPair,
    controller_ledger: &Option<LedgerRecord>,
    stash_ledger: &Option<LedgerRecord>,
) -> PairView {
    PairView {
        stash: pair.stash@,
        controller: pair.controller@,
        controller_ledger: ledger_view(*controller_ledger),
        stash_ledger: ledger_view(*stash_ledger),
    }
}

/// A fatal stop of the scan: which decode failure ended it, and the state —
/// counters and position — as it stood when the offending element was
/// reached. The element itself is in no counter.
#[derive(Debug)]
pub struct ScanAbort {
    pub error: DecodeError,
    pub state: ScanState,
}

/// Runs the whole scan over a stream of raw elements, each already paired
/// with its two ledger lookup results. Elements before the cursor are passed
/// over; every element from the cursor on is decoded and classified, its
/// outcome counted, and its anomaly record, if any, appended to the sink. The
/// first element at or after the cursor that fails to decode aborts the run
/// with the counters as they stood; nothing already in the sink is touched
/// either way.
pub fn run_scan(entries: &Vec<RawEntry>, cursor: usize, sink: &mut Vec<String>) -> (r: Result<
    ScanState,
    ScanAbort,
>)
    ensures
        match r {
            Ok(st) => {
                let s = views_of(entries@);
                &&& st.cursor == cursor
                &&& st.position == s.len()
                &&& st.wf()
                &&& forall|i: int| cursor <= i < s.len() ==> raw_decodes(s[i])
                &&& forall|o: Outcome|
                    st.counters.count_of(o) == outcome_count(
                        scanned(s, cursor as int, s.len() as int),
                        o,
                    )
                &&& appended(
                    old(sink)@,
                    final(sink)@,
                    records_of(scanned(s, cursor as int, s.len() as int)),
                )
            },
            Err(ab) => {
                let s = views_of(entries@);
                let j = ab.state.position as int;
                &&& ab.state.cursor == cursor
                &&& cursor <= j < s.len()
                &&& !raw_decodes(s[j])
                &&& forall|i: int| cursor <= i < j ==> raw_decodes(s[i])
                &&& (ab.error == DecodeError::KeyTooShort <==> s[j].key.len() < IDENTITY_LEN)
                &&& (ab.error == DecodeError::ValueNotIdentity <==> (s[j].key.len() >= IDENTITY_LEN
                    && s[j].value.len() != IDENTITY_LEN))
                &&& ab.state.wf()
                &&& forall|o: Outcome|
                    ab.state.counters.count_of(o) == outcome_count(scanned(s, cursor as int, j), o)
                &&& appended(old(sink)@, final(sink)@, records_of(scanned(s, cursor as int, j)))
            },
        },
{
    let ghost s = views_of(entries@);
    let mut st = ScanState::new(cursor);
    let n = entries.len();
    let mut idx: usize = 0;
    while idx < n
        invariant
            n == entries@.len(),
            s == views_of(entries@),
            idx <= n,
            st.position == idx,
            st.cursor == cursor,
            st.wf(),
            forall|i: int| cursor <= i < idx ==> raw_decodes(s[i]),
            forall|o: Outcome|
                st.counters.count_of(o) == outcome_count(scanned(s, cursor as int, idx as int), o),
            appended(old(sink)@, sink@, records_of(scanned(s, cursor as int, idx as int))),
        decreases n - idx,
    {
        let entry = &entries[idx];
        proof {
            assert(s[idx as int] == entry@);
        }
        if st.pending_skip() {
            let _mark = st.note_skipped();
            proof {
                lemma_scanned_empty_step(s, cursor as int, idx as int);
            }
        } else {
            match decode_pair(&entry.raw_key, &entry.raw_value) {
                Err(error) => {
                    return Err(ScanAbort { error, state: st });
                },
                Ok(pair) => {
                    let (_outcome, rec) = st.process_pair(
                        &pair,
                        &entry.controller_ledger,
                        &entry.stash_ledger,
                    );
                    proof {
                        assert(pair_view(&pair, &entry.controller_ledger, &entry.stash_ledger)
                            == raw_pair(s[idx as int]));
                        lemma_scanned_extend(s, cursor as int, idx as int);
                    }
                    if let Some(text) = rec {
                        sink.push(text);
                    }
                },
            }
        }
        idx += 1;
    }
    Ok(st)
}

/// Passing over a pre-cursor element leaves the classified part of the
/// stream empty.
proof fn lemma_scanned_empty_step(s: Seq<RawEntryView>, cursor: int, idx: int)
    requires
        0 <= idx < cursor,
        idx < s.len(),
    ensures
        scanned(s, cursor, idx) == Seq::<PairView>::empty(),
        scanned(s, cursor, idx + 1) == Seq::<PairView>::empty(),
{
    if cursor <= idx + 1 {
        assert(scanned(s, cursor, idx + 1) =~= Seq::<PairView>::empty());
    }
}

/// Classifying the element at `idx` extends the classified part of the
/// stream by exactly its decoded pair.
proof fn lemma_scanned_extend(s: Seq<RawEntryView>, cursor: int, idx: int)
    requires
        0 <= cursor <= idx < s.len(),
    ensures
        scanned(s, cursor, idx + 1) == scanned(s, cursor, idx).push(raw_pair(s[idx])),
        scanned(s, cursor, idx + 1).drop_last() == scanned(s, cursor, idx),
        scanned(s, cursor, idx + 1).last() == raw_pair(s[idx]),
{
    assert(scanned(s, cursor, idx + 1) =~= scanned(s, cursor, idx).push(raw_pair(s[idx])));
    assert(scanned(s, cursor, idx + 1).drop_last() =~= scanned(s, cursor, idx));
}

} // verus!
