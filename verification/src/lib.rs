//! Audits a chain's staking subsystem for double-bonded accounts: pairs of
//! stash and controller identities that diverge while both still hold a
//! staking ledger. The library holds the reconciliation core — decoding
//! bonded-map entries, the five-way classification of each pair, the running
//! counters, the resumable scan, and the durable anomaly-record format — all
//! of it verified. Connecting to a chain and file handling live outside it.

pub mod classify;
pub mod identity;
pub mod laws;
pub mod record;
pub mod scan;

pub use classify::{classify, Counters, LedgerRecord, Outcome};
pub use identity::{account_from_key, decode_pair, BondedPair, DecodeError, Identity};
pub use record::{render_double, render_none};
pub use scan::{run_scan, RawEntry, ScanAbort, ScanState};
