use bond_audit::{
    account_from_key, classify, decode_pair, render_double, render_none, run_scan, BondedPair,
    Counters, DecodeError, Identity, LedgerRecord, Outcome, RawEntry, ScanState,
};

fn id_bytes(fill: u8) -> Vec<u8> {
    vec![fill; 32]
}

fn identity(fill: u8) -> Identity {
    Identity::from_bytes(id_bytes(fill)).unwrap()
}

fn pair(stash: u8, controller: u8) -> BondedPair {
    BondedPair { stash: identity(stash), controller: identity(controller) }
}

fn ledger(text: &str) -> Option<LedgerRecord> {
    Some(LedgerRecord::new(text.to_string()))
}

// A raw storage key: an arbitrary 16-byte prefix, then the 32 identity bytes.
fn raw_key(fill: u8) -> Vec<u8> {
    let mut k = vec![0xeeu8; 16];
    k.extend_from_slice(&id_bytes(fill));
    k
}

fn entry(
    stash: u8,
    controller: u8,
    controller_ledger: Option<LedgerRecord>,
    stash_ledger: Option<LedgerRecord>,
) -> RawEntry {
    RawEntry {
        raw_key: raw_key(stash),
        raw_value: id_bytes(controller),
        controller_ledger,
        stash_ledger,
    }
}

fn total(c: &Counters) -> u64 {
    c.migrated + c.double_bonded + c.controller_only + c.stash_only + c.orphaned
}

#[test]
fn classify_both_present_equal_is_migrated() {
    let p = pair(0x11, 0x11);
    assert_eq!(classify(&p, &ledger("cl"), &ledger("sl")), Outcome::Migrated);
}

#[test]
fn classify_both_present_unequal_is_double_bonded() {
    let p = pair(0x11, 0x22);
    assert_eq!(classify(&p, &ledger("cl"), &ledger("sl")), Outcome::DoubleBonded);
}

#[test]
fn classify_controller_only() {
    let p = pair(0x11, 0x22);
    assert_eq!(classify(&p, &ledger("cl"), &None), Outcome::ControllerOnly);
}

#[test]
fn classify_stash_only() {
    let p = pair(0x11, 0x22);
    assert_eq!(classify(&p, &None, &ledger("sl")), Outcome::StashOnly);
}

#[test]
fn classify_both_absent_is_orphaned() {
    // The tie-break is consulted only in the both-present case: even an
    // equal pair with no ledgers is orphaned.
    let p = pair(0x11, 0x11);
    assert_eq!(classify(&p, &None, &None), Outcome::Orphaned);
}

#[test]
fn account_from_key_takes_trailing_bytes() {
    let mut key = vec![0x01u8, 0x02, 0x03];
    let mut expected = Vec::new();
    for i in 0..32u8 {
        expected.push(i.wrapping_mul(7));
    }
    key.extend_from_slice(&expected);
    let got = account_from_key(&key).unwrap();
    assert_eq!(got.bytes().as_slice(), expected.as_slice());
}

#[test]
fn account_from_key_exact_length() {
    let key: Vec<u8> = (0u8..32).collect();
    let got = account_from_key(&key).unwrap();
    assert_eq!(got.bytes().as_slice(), key.as_slice());
}

#[test]
fn account_from_key_short_key_fails() {
    let key = vec![0u8; 31];
    assert!(account_from_key(&key).is_none());
}

#[test]
fn decode_pair_reads_both_identities() {
    let decoded = decode_pair(&raw_key(0xab), &id_bytes(0xcd)).unwrap();
    assert_eq!(decoded.stash.bytes().as_slice(), id_bytes(0xab).as_slice());
    assert_eq!(decoded.controller.bytes().as_slice(), id_bytes(0xcd).as_slice());
}

#[test]
fn decode_pair_short_key_error() {
    let r = decode_pair(&vec![0u8; 10], &id_bytes(0xcd));
    assert_eq!(r.err().unwrap(), DecodeError::KeyTooShort);
}

#[test]
fn decode_pair_bad_value_error() {
    let r = decode_pair(&raw_key(0xab), &vec![0u8; 33]);
    assert_eq!(r.err().unwrap(), DecodeError::ValueNotIdentity);
}

#[test]
fn identity_equality_is_byte_equality() {
    assert!(identity(0x11).same_as(&identity(0x11)));
    assert!(!identity(0x11).same_as(&identity(0x12)));
}

#[test]
fn render_none_exact_text() {
    let p = pair(0x00, 0x01);
    let expected =
        format!("NONE:\ncontroller: {}\nstash: {}\n", "01".repeat(32), "00".repeat(32));
    assert_eq!(render_none(&p), expected);
}

#[test]
fn render_double_exact_text() {
    let p = pair(0xfe, 0x0a);
    let cl = LedgerRecord::new("ledger-c".to_string());
    let sl = LedgerRecord::new("ledger-s".to_string());
    let expected = format!(
        "DOUBLE:\ncontroller: {}\nstash: {}\ncontroller_ledger: ledger-c\nstash_ledger: ledger-s\n",
        "0a".repeat(32),
        "fe".repeat(32),
    );
    assert_eq!(render_double(&p, &cl, &sl), expected);
}

#[test]
fn render_uses_lowercase_hex_of_every_byte() {
    let all_bytes: Vec<u8> = (0u8..=255).collect();
    let mut key = vec![0u8; 224];
    key.extend_from_slice(&all_bytes[224..]);
    let stash = account_from_key(&key).unwrap();
    let controller = identity(0x00);
    let p = BondedPair { stash, controller };
    let expected = format!(
        "NONE:\ncontroller: {}\nstash: {}\n",
        "00".repeat(32),
        "e0e1e2e3e4e5e6e7e8e9eaebecedeeeff0f1f2f3f4f5f6f7f8f9fafbfcfdfeff",
    );
    assert_eq!(render_none(&p), expected);
}

#[test]
fn scenario_four_pairs() {
    // (A,A,ledger,ledger), (B,C,ledger,ledger), (D,E,none,none),
    // (F,G,ledger,none): one migrated, one double-bonded, one orphaned, one
    // controller-only, and exactly two sink records.
    let entries = vec![
        entry(0xa1, 0xa1, ledger("la"), ledger("la2")),
        entry(0xb1, 0xc1, ledger("lb"), ledger("lc")),
        entry(0xd1, 0xe1, None, None),
        entry(0xf1, 0x91, ledger("lf"), None),
    ];
    let mut sink: Vec<String> = Vec::new();
    let st = run_scan(&entries, 0, &mut sink).unwrap();
    assert_eq!(st.counters.migrated, 1);
    assert_eq!(st.counters.double_bonded, 1);
    assert_eq!(st.counters.orphaned, 1);
    assert_eq!(st.counters.controller_only, 1);
    assert_eq!(st.counters.stash_only, 0);
    assert_eq!(st.position, 4);
    assert_eq!(sink.len(), 2);
    let expected_double = format!(
        "DOUBLE:\ncontroller: {}\nstash: {}\ncontroller_ledger: lb\nstash_ledger: lc\n",
        "c1".repeat(32),
        "b1".repeat(32),
    );
    let expected_none =
        format!("NONE:\ncontroller: {}\nstash: {}\n", "e1".repeat(32), "d1".repeat(32));
    assert_eq!(sink[0], expected_double);
    assert_eq!(sink[1], expected_none);
}

#[test]
fn counters_sum_to_processed_pairs() {
    let entries = vec![
        entry(0x01, 0x01, ledger("l"), ledger("l")),
        entry(0x02, 0x03, None, ledger("l")),
        entry(0x04, 0x05, None, None),
        entry(0x06, 0x07, ledger("l"), None),
        entry(0x08, 0x09, ledger("l"), ledger("l")),
    ];
    let mut sink: Vec<String> = Vec::new();
    let st = run_scan(&entries, 0, &mut sink).unwrap();
    assert_eq!(total(&st.counters), 5);
    let mut sink2: Vec<String> = Vec::new();
    let st2 = run_scan(&entries, 3, &mut sink2).unwrap();
    assert_eq!(total(&st2.counters), 2);
}

#[test]
fn cursor_splits_a_run_without_double_counting() {
    let entries = vec![
        entry(0x01, 0x01, ledger("l"), ledger("l")),
        entry(0x02, 0x03, ledger("l"), ledger("l")),
        entry(0x04, 0x05, None, None),
        entry(0x06, 0x07, ledger("l"), None),
        entry(0x08, 0x09, None, ledger("l")),
    ];
    for m in 0..=entries.len() {
        let mut full_sink: Vec<String> = Vec::new();
        let full = run_scan(&entries, 0, &mut full_sink).unwrap();

        // First half: the stream cut off at m, cursor zero.
        let head: Vec<RawEntry> = entries[..m]
            .iter()
            .map(|e| RawEntry {
                raw_key: e.raw_key.clone(),
                raw_value: e.raw_value.clone(),
                controller_ledger: e
                    .controller_ledger
                    .as_ref()
                    .map(|l| LedgerRecord::new(l.text().to_string())),
                stash_ledger: e
                    .stash_ledger
                    .as_ref()
                    .map(|l| LedgerRecord::new(l.text().to_string())),
            })
            .collect();
        let mut sink_a: Vec<String> = Vec::new();
        let first = run_scan(&head, 0, &mut sink_a).unwrap();
        // Second half: the full stream, cursor m.
        let mut sink_b: Vec<String> = Vec::new();
        let second = run_scan(&entries, m, &mut sink_b).unwrap();

        assert_eq!(first.counters.migrated + second.counters.migrated, full.counters.migrated);
        assert_eq!(
            first.counters.double_bonded + second.counters.double_bonded,
            full.counters.double_bonded
        );
        assert_eq!(
            first.counters.controller_only + second.counters.controller_only,
            full.counters.controller_only
        );
        assert_eq!(
            first.counters.stash_only + second.counters.stash_only,
            full.counters.stash_only
        );
        assert_eq!(first.counters.orphaned + second.counters.orphaned, full.counters.orphaned);
        assert_eq!(total(&first.counters) + total(&second.counters), total(&full.counters));

        let mut joined = sink_a.clone();
        joined.extend(sink_b.iter().cloned());
        assert_eq!(joined, full_sink);
    }
}

#[test]
fn sink_is_append_only_across_runs() {
    let entries = vec![
        entry(0x02, 0x03, ledger("lb"), ledger("lc")),
        entry(0x04, 0x05, None, None),
    ];
    let mut sink: Vec<String> = Vec::new();
    run_scan(&entries, 0, &mut sink).unwrap();
    let after_first = sink.clone();
    assert_eq!(after_first.len(), 2);
    run_scan(&entries, 0, &mut sink).unwrap();
    assert_eq!(sink.len(), 4);
    assert_eq!(&sink[..2], after_first.as_slice());
}

#[test]
fn decode_failure_aborts_before_counting_that_element() {
    let entries = vec![
        entry(0x04, 0x05, None, None),
        RawEntry {
            raw_key: vec![0u8; 10],
            raw_value: id_bytes(0x01),
            controller_ledger: None,
            stash_ledger: None,
        },
        entry(0x06, 0x07, ledger("l"), ledger("l")),
    ];
    let mut sink: Vec<String> = Vec::new();
    let abort = run_scan(&entries, 0, &mut sink).err().unwrap();
    assert_eq!(abort.error, DecodeError::KeyTooShort);
    assert_eq!(abort.state.position, 1);
    assert_eq!(abort.state.counters.orphaned, 1);
    assert_eq!(total(&abort.state.counters), 1);
    assert_eq!(sink.len(), 1);
}

#[test]
fn bad_value_aborts_with_value_error() {
    let entries = vec![RawEntry {
        raw_key: raw_key(0x01),
        raw_value: vec![0u8; 31],
        controller_ledger: None,
        stash_ledger: None,
    }];
    let mut sink: Vec<String> = Vec::new();
    let abort = run_scan(&entries, 0, &mut sink).err().unwrap();
    assert_eq!(abort.error, DecodeError::ValueNotIdentity);
    assert_eq!(abort.state.position, 0);
    assert_eq!(total(&abort.state.counters), 0);
    assert!(sink.is_empty());
}

#[test]
fn pre_cursor_elements_are_not_decoded() {
    // A malformed entry before the cursor is passed over, exactly as the
    // scan never decodes what it skips.
    let entries = vec![
        RawEntry {
            raw_key: vec![0u8; 3],
            raw_value: vec![0u8; 3],
            controller_ledger: None,
            stash_ledger: None,
        },
        entry(0x06, 0x07, ledger("l"), ledger("l")),
    ];
    let mut sink: Vec<String> = Vec::new();
    let st = run_scan(&entries, 1, &mut sink).unwrap();
    assert_eq!(st.counters.migrated, 0);
    assert_eq!(st.counters.double_bonded, 1);
    assert_eq!(total(&st.counters), 1);
    assert_eq!(sink.len(), 1);
}

#[test]
fn empty_stream_yields_zero_counters() {
    let entries: Vec<RawEntry> = Vec::new();
    let mut sink: Vec<String> = Vec::new();
    let st = run_scan(&entries, 0, &mut sink).unwrap();
    assert_eq!(total(&st.counters), 0);
    assert_eq!(st.position, 0);
    assert!(sink.is_empty());
}

#[test]
fn skip_marker_every_hundred() {
    let mut st = ScanState::new(250);
    let mut marks = 0;
    while st.pending_skip() {
        if st.note_skipped() {
            marks += 1;
        }
    }
    assert_eq!(st.position, 250);
    assert_eq!(marks, 2);
}

#[test]
fn process_pair_returns_record_only_for_anomalies() {
    let mut st = ScanState::new(0);
    let (outcome, rec) = st.process_pair(&pair(0x01, 0x01), &ledger("l"), &ledger("l"));
    assert_eq!(outcome, Outcome::Migrated);
    assert!(rec.is_none());
    let (outcome, rec) = st.process_pair(&pair(0x01, 0x02), &None, &None);
    assert_eq!(outcome, Outcome::Orphaned);
    let expected =
        format!("NONE:\ncontroller: {}\nstash: {}\n", "02".repeat(32), "01".repeat(32));
    assert_eq!(rec.unwrap(), expected);
    assert_eq!(st.position, 2);
    assert_eq!(total(&st.counters), 2);
}
