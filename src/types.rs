//! Plain data shared by the ledger: identifiers, records and errors.
use vstd::prelude::*;

verus! {

/// An account, identified by its 20-byte address.
pub type AccountId = [u8; 20];

/// A single-use unlock token (a nullifier): 32 opaque bytes.
pub type UnlockToken = [u8; 32];

/// Why a ledger operation was refused.
#[derive(Debug, Clone, Copy, PartialEq, Eq, Structural)]
pub enum LedgerError {
    /// The price lies outside the ledger's configured bounds.
    InvalidPrice,
    /// The content reference is not a well-formed content identifier.
    InvalidContentReference,
    /// No record carries the requested identifier.
    RecordNotFound,
    /// The unlock token has already authorized an unlock.
    TokenAlreadyConsumed,
    /// The amount paid is below the record's price.
    InsufficientPayment,
    /// The unlock proof was not accepted.
    InvalidProof,
    /// The account has no earnings to withdraw.
    NoEarnings,
    /// The outgoing transfer failed; the balance was restored.
    TransferFailed,
}

/// The ledger's metadata about one published record.
#[derive(Debug, Clone, Copy, PartialEq, Eq)]
pub struct Record {
    /// The account that published the record and is credited on unlock.
    pub owner: AccountId,
    /// The minimum payment that unlocks the record.
    pub price: u128,
    /// How many times the record has been unlocked.
    pub unlock_count: u64,
}

/// Whether two byte arrays hold the same bytes.
pub fn same_bytes<const N: usize>(a: &[u8; N], b: &[u8; N]) -> (r: bool)
    ensures
        r == (*a == *b),
{
    let mut i: usize = 0;
    while i < N
        invariant
            0 <= i <= N,
            a@.len() == N,
            b@.len() == N,
            forall|j: int| 0 <= j < i ==> a@[j] == b@[j],
        decreases N - i,
    {
        if a[i] != b[i] {
            assert(a@[i as int] != b@[i as int]);
            return false;
        }
        i = i + 1;
    }
    assert(*a =~= *b);
    true
}

} // verus!
