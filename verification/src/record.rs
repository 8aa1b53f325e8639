//! The durable anomaly-record format.
//!
//! Each `DoubleBonded` or `Orphaned` outcome is persisted as one line-oriented
//! UTF-8 text block: a `DOUBLE:` block carries both identities hex-encoded and
//! both ledger payloads verbatim; a `NONE:` block carries the two identities
//! alone. The exact character sequence of each block is pinned down here, so
//! that what reaches the sink is the format and nothing else.

use vstd::prelude::*;
use vstd::string::StringExecFns;

use crate::classify::LedgerRecord;
use crate::identity::BondedPair;

verus! {

/// The lowercase hex digit of a value below sixteen.
pub open spec fn hex_char(v: u8) -> char {
    if v == 0 {
        '0'
    } else if v == 1 {
        '1'
    } else if v == 2 {
        '2'
    } else if v == 3 {
        '3'
    } else if v == 4 {
        '4'
    } else if v == 5 {
        '5'
    } else if v == 6 {
        '6'
    } else if v == 7 {
        '7'
    } else if v == 8 {
        '8'
    } else if v == 9 {
        '9'
    } else if v == 10 {
        'a'
    } else if v == 11 {
        'b'
    } else if v == 12 {
        'c'
    } else if v == 13 {
        'd'
    } else if v == 14 {
        'e'
    } else {
        'f'
    }
}

/// Lowercase hex encoding: two digits per byte, high nibble first.
pub open spec fn hex_of(bytes: Seq<u8>) -> Seq<char>
    decreases bytes.len(),
{
    if bytes.len() == 0 {
        Seq::empty()
    } else {
        seq![hex_char(bytes.first() / 16), hex_char(bytes.first() % 16)] + hex_of(
            bytes.drop_first(),
        )
    }
}

/// Relies on hex::encode: for each input byte in order, it emits the
/// lowercase digit of the high nibble, then of the low nibble.
#[verifier::external_body]
fn hex_encode(bytes: &Vec<u8>) -> (r: String)
    ensures
        r@ == hex_of(bytes@),
{
    hex::encode(bytes.as_slice())
}

/// The exact text of a `DOUBLE:` block: both identities hex-encoded,
/// controller first, then both ledger payloads verbatim, one trailing
/// newline.
pub open spec fn double_record(
    controller: Seq<u8>,
    stash: Seq<u8>,
    controller_ledger: Seq<char>,
    stash_ledger: Seq<char>,
) -> Seq<char> {
    "DOUBLE:\ncontroller: "@ + hex_of(controller) + "\nstash: "@ + hex_of(stash)
        + "\ncontroller_ledger: "@ + controller_ledger + "\nstash_ledger: "@ + stash_ledger
        + "\n"@
}

/// The exact text of a `NONE:` block: both identities hex-encoded, controller
/// first, one trailing newline.
pub open spec fn none_record(controller: Seq<u8>, stash: Seq<u8>) -> Seq<char> {
    "NONE:\ncontroller: "@ + hex_of(controller) + "\nstash: "@ + hex_of(stash) + "\n"@
}

/// Renders the anomaly record of a double-bonded pair.
pub fn render_double(
    pair: &BondedPair,
    controller_ledger: &LedgerRecord,
    stash_ledger: &LedgerRecord,
) -> (r: String)
    ensures
        r@ == double_record(pair.controller@, pair.stash@, controller_ledger@, stash_ledger@),
{
    let mut s = String::new();
    s.append("DOUBLE:\ncontroller: ");
    let controller_hex = hex_encode(pair.controller.bytes());
    s.append(controller_hex.as_str());
    s.append("\nstash: ");
    let stash_hex = hex_encode(pair.stash.bytes());
    s.append(stash_hex.as_str());
    s.append("\ncontroller_ledger: ");
    s.append(controller_ledger.text());
    s.append("\nstash_ledger: ");
    s.append(stash_ledger.text());
    s.append("\n");
    proof {
        assert(s@ =~= double_record(
            pair.controller@,
            pair.stash@,
            controller_ledger@,
            stash_ledger@,
        ));
    }
    s
}

/// Renders the anomaly record of an orphaned pair.
pub fn render_none(pair: &BondedPair) -> (r: String)
    ensures
        r@ == none_record(pair.controller@, pair.stash@),
{
    let mut s = String::new();
    s.append("NONE:\ncontroller: ");
    let controller_hex = hex_encode(pair.controller.bytes());
    s.append(controller_hex.as_str());
    s.append("\nstash: ");
    let stash_hex = hex_encode(pair.stash.bytes());
    s.append(stash_hex.as_str());
    s.append("\n");
    proof {
        assert(s@ =~= none_record(pair.controller@, pair.stash@));
    }
    s
}

} // verus!
