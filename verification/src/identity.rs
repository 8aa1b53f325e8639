//! Account identities and the decoding of bonded-map entries.
//!
//! A bonded-map entry arrives as a raw storage key and a raw storage value.
//! The key's trailing 32 bytes are the stash identity; the value's 32 bytes
//! are the controller identity, with no other transformation. A malformed
//! entry is a fatal decode error, never skipped.

use vstd::prelude::*;

verus! {

/// The number of bytes in an account identity.
pub const IDENTITY_LEN: usize = 32;

/// A fixed-size opaque account identifier. Two identities compare by exact
/// byte equality; no other structure is read from the bytes.
pub struct Identity {
    bytes: Vec<u8>,
}

impl View for Identity {
    type V = Seq<u8>;

    closed spec fn view(&self) -> Seq<u8> {
        self.bytes@
    }
}

impl Identity {
    /// An identity is well formed when it holds exactly 32 bytes.
    pub open spec fn wf(&self) -> bool {
        self@.len() == IDENTITY_LEN
    }

    /// Builds an identity from exactly 32 bytes; anything else is refused.
    pub fn from_bytes(bytes: Vec<u8>) -> (r: Option<Identity>)
        ensures
            match r {
                Some(id) => bytes@.len() == IDENTITY_LEN && id@ == bytes@ && id.wf(),
                None => bytes@.len() != IDENTITY_LEN,
            },
    {
        if bytes.len() == IDENTITY_LEN {
            Some(Identity { bytes })
        } else {
            None
        }
    }

    /// The raw bytes of the identity.
    pub fn bytes(&self) -> (r: &Vec<u8>)
        ensures
            r@ == self@,
    {
        &self.bytes
    }

    /// Byte-for-byte equality of two identities.
    pub fn same_as(&self, other: &Identity) -> (r: bool)
        ensures
            r == (self@ == other@),
    {
        if self.bytes.len() != other.bytes.len() {
            assert(self@ != other@);
            return false;
        }
        let n = self.bytes.len();
        let mut i: usize = 0;
        while i < n
            invariant
                n == self@.len(),
                n == other@.len(),
                i <= n,
                forall|j: int| 0 <= j < i ==> self@[j] == other@[j],
            decreases n - i,
        {
            if self.bytes[i] != other.bytes[i] {
                assert(self@ != other@);
                return false;
            }
            i += 1;
        }
        proof {
            assert(self@ =~= other@);
        }
        true
    }
}

/// One entry of the bonded map: the stash identity it is keyed by, and the
/// controller identity stored under it.
pub struct BondedPair {
    pub stash: Identity,
    pub controller: Identity,
}

/// Why a raw bonded-map entry could not be decoded. Either failure is fatal
/// for the scan: a malformed entry means a corrupted snapshot or a schema
/// mismatch, and skipping it would corrupt the counts.
#[derive(Clone, Copy, Debug, PartialEq, Eq, Structural)]
pub enum DecodeError {
    /// The raw storage key holds fewer than 32 bytes, so no stash identity
    /// can be read from its tail.
    KeyTooShort,
    /// The raw storage value is not exactly 32 bytes, so it is not a
    /// controller identity.
    ValueNotIdentity,
}

/// Reads the stash identity from a raw storage key: its trailing 32 bytes,
/// with no other transformation. A shorter key cannot be decoded.
pub fn account_from_key(q: &Vec<u8>) -> (r: Option<Identity>)
    ensures
        match r {
            Some(id) => q@.len() >= IDENTITY_LEN
                && id@ == q@.subrange(q@.len() - IDENTITY_LEN, q@.len() as int)
                && id.wf(),
            None => q@.len() < IDENTITY_LEN,
        },
{
    if q.len() < IDENTITY_LEN {
        return None;
    }
    let n = q.len();
    let start = n - IDENTITY_LEN;
    let mut acc: Vec<u8> = Vec::new();
    let mut j: usize = start;
    while j < n
        invariant
            n == q@.len(),
            start + IDENTITY_LEN == n,
            start <= j <= n,
            acc@ == q@.subrange(start as int, j as int),
        decreases n - j,
    {
        acc.push(q[j]);
        proof {
            assert(acc@ =~= q@.subrange(start as int, j + 1));
        }
        j += 1;
    }
    Identity::from_bytes(acc)
}

/// Decodes one raw bonded-map entry into a pair: the key's trailing 32 bytes
/// become the stash, the 32-byte value becomes the controller. Says exactly
/// which malformation produced each error: a short key is reported before the
/// value is looked at.
pub fn decode_pair(raw_key: &Vec<u8>, raw_value: &Vec<u8>) -> (r: Result<BondedPair, DecodeError>)
    ensures
        match r {
            Ok(pair) => raw_key@.len() >= IDENTITY_LEN
                && raw_value@.len() == IDENTITY_LEN
                && pair.stash@ == raw_key@.subrange(raw_key@.len() - IDENTITY_LEN, raw_key@.len() as int)
                && pair.controller@ == raw_value@
                && pair.stash.wf()
                && pair.controller.wf(),
            Err(DecodeError::KeyTooShort) => raw_key@.len() < IDENTITY_LEN,
            Err(DecodeError::ValueNotIdentity) => raw_key@.len() >= IDENTITY_LEN
                && raw_value@.len() != IDENTITY_LEN,
        },
{
    let stash = match account_from_key(raw_key) {
        Some(id) => id,
        None => {
            return Err(DecodeError::KeyTooShort);
        },
    };
    let controller = match Identity::from_bytes(raw_value.clone()) {
        Some(id) => id,
        None => {
            return Err(DecodeError::ValueNotIdentity);
        },
    };
    Ok(BondedPair { stash, controller })
}

} // verus!
