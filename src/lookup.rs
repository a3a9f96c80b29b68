//! What a point lookup found, and how each read turns absence into a result.
use vstd::prelude::*;
use crate::keys::{from_hex_text, hex_body, hex_bytes, is_hex_digits, B256};
use crate::model::Found;

verus! {

/// The errors of the store.
#[derive(Clone, Debug, PartialEq, Eq)]
pub enum StoreError {
    /// The tables could not be created.
    Init(String),
    /// A block and its state diff could not be committed; nothing of it was kept.
    Transaction(String),
    /// A read or a single write failed in the engine.
    Query(String),
    /// A stored value is not in the form that its column holds.
    Decode(String),
    /// A row that must exist is absent.
    Inconsistency(String),
}

/// What a point lookup by key found.
pub enum Fetched {
    /// The first column of the matching row.
    Row(String),
    /// No row has the key.
    Absent,
    /// The engine failed, with its message.
    Failed(String),
}

/// What a lookup found, without the engine's message.
pub open spec fn found_of(f: Fetched) -> Found {
    match f {
        Fetched::Row(s) => Found::Row(s@),
        Fetched::Absent => Found::NoRow,
        Fetched::Failed(_) => Found::Failed,
    }
}

/// Absence is a result of its own: a found row gives `Some`, no row gives
/// `None`, a failure an error.
pub fn absent_as_none(f: Fetched) -> (r: Result<Option<String>, StoreError>)
    ensures
        match f {
            Fetched::Row(s) => r == Ok::<Option<String>, StoreError>(Some(s)),
            Fetched::Absent => r == Ok::<Option<String>, StoreError>(None),
            Fetched::Failed(m) => r == Err::<Option<String>, StoreError>(StoreError::Query(m)),
        },
{
    match f {
        Fetched::Row(s) => Ok(Some(s)),
        Fetched::Absent => Ok(None),
        Fetched::Failed(m) => Err(StoreError::Query(m)),
    }
}

/// Absent code is empty code: a found row is read as hex text, no row gives
/// no bytes, a failure an error.
pub fn absent_as_empty_code(f: Fetched) -> (r: Result<Vec<u8>, StoreError>)
    ensures
        match f {
            Fetched::Row(s) => if is_hex_digits(hex_body(s@)) {
                r matches Ok(v) && v@ == hex_bytes(hex_body(s@))
            } else {
                r matches Err(e) && e is Decode
            },
            Fetched::Absent => r matches Ok(v) && v@.len() == 0,
            Fetched::Failed(m) => r == Err::<Vec<u8>, StoreError>(StoreError::Query(m)),
        },
{
    match f {
        Fetched::Row(s) => match from_hex_text(s.as_str()) {
            Some(v) => Ok(v),
            None => Err(StoreError::Decode(s)),
        },
        Fetched::Absent => Ok(Vec::new()),
        Fetched::Failed(m) => Err(StoreError::Query(m)),
    }
}

/// Whether a text is the hex form of exactly 32 bytes.
pub open spec fn is_digest_text(s: Seq<char>) -> bool {
    is_hex_digits(hex_body(s)) && hex_body(s).len() == 64
}

/// Absence is an error: a found row is read as a 32-byte digest, no row is an
/// inconsistency, a failure an error.
pub fn absent_as_error(f: Fetched) -> (r: Result<B256, StoreError>)
    ensures
        match f {
            Fetched::Row(s) => if is_digest_text(s@) {
                r matches Ok(h) && h.bytes@ == hex_bytes(hex_body(s@))
            } else {
                r matches Err(e) && e is Decode
            },
            Fetched::Absent => r matches Err(e) && e is Inconsistency,
            Fetched::Failed(m) => r == Err::<B256, StoreError>(StoreError::Query(m)),
        },
{
    match f {
        Fetched::Row(s) => match from_hex_text(s.as_str()) {
            Some(v) => {
                if v.len() != 32 {
                    return Err(StoreError::Decode(s));
                }
                let mut bytes = [0u8; 32];
                let mut i: usize = 0;
                while i < 32
                    invariant
                        v@.len() == 32,
                        i <= 32,
                        forall|j: int| 0 <= j < i ==> bytes@[j] == v@[j],
                    decreases 32 - i,
                {
                    bytes[i] = v[i];
                    i = i + 1;
                }
                assert(bytes@ =~= v@);
                Ok(B256 { bytes })
            },
            None => Err(StoreError::Decode(s)),
        },
        Fetched::Absent => Err(StoreError::Inconsistency(String::from_str("no block hash is stored for the number"))),
        Fetched::Failed(m) => Err(StoreError::Query(m)),
    }
}

} // verus!
