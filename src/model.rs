//! The abstract ledger state and the effect of each operation on it.
use vstd::prelude::*;
use crate::types::{AccountId, LedgerError, Record, UnlockToken};

verus! {

/// What the ledger holds, as mathematical values.
pub struct LedgerView {
    /// The lowest price a record may be published at.
    pub min_price: u128,
    /// The highest price a record may be published at.
    pub max_price: u128,
    /// The records, indexed by their identifier.
    pub records: Seq<Record>,
    /// The content reference of each record, indexed like `records`.
    pub content_refs: Seq<Seq<char>>,
    /// The public preview of each record, indexed like `records`.
    pub previews: Seq<Seq<char>>,
    /// The unlock tokens that have been spent.
    pub consumed: Set<UnlockToken>,
    /// The earnings owed to each account.
    pub balances: spec_fn(AccountId) -> nat,
}

/// The earnings function after `amount` more is owed to `account`.
pub open spec fn credited(b: spec_fn(AccountId) -> nat, account: AccountId, amount: nat) -> spec_fn(
    AccountId,
) -> nat {
    |a: AccountId| if a == account { b(a) + amount } else { b(a) }
}

/// The earnings function after the balance of `account` is set to `amount`.
pub open spec fn with_balance(b: spec_fn(AccountId) -> nat, account: AccountId, amount: nat) -> spec_fn(
    AccountId,
) -> nat {
    |a: AccountId| if a == account { amount } else { b(a) }
}

/// The two bytes that open a version-0 content identifier ("Qm").
pub open spec fn is_cid_v0_prefix(b: Seq<u8>) -> bool {
    b.len() >= 2 && b[0] == 0x51u8 && b[1] == 0x6du8
}

/// The three bytes that open a version-1 content identifier ("baf").
pub open spec fn is_cid_v1_prefix(b: Seq<u8>) -> bool {
    b.len() >= 3 && b[0] == 0x62u8 && b[1] == 0x61u8 && b[2] == 0x66u8
}

/// A content reference is accepted when its UTF-8 encoding opens like a
/// content identifier and is between 46 and 64 bytes long.
pub open spec fn valid_content_ref(b: Seq<u8>) -> bool {
    (is_cid_v0_prefix(b) || is_cid_v1_prefix(b)) && 46 <= b.len() <= 64
}

impl LedgerView {
    /// The balance owed to `account`.
    pub open spec fn balance(self, account: AccountId) -> nat {
        (self.balances)(account)
    }

    /// Whether `record_id` names a published record.
    pub open spec fn has_record(self, record_id: u64) -> bool {
        record_id < self.records.len()
    }

    /// Whether an unlock of `record_id` paying `amount_paid` keeps the
    /// owner's balance and the record's unlock count within their integer
    /// types.
    pub open spec fn unlock_fits(self, record_id: u64, amount_paid: u128) -> bool {
        self.has_record(record_id) ==> {
            let r = self.records[record_id as int];
            self.balance(r.owner) + amount_paid <= u128::MAX && r.unlock_count < u64::MAX
        }
    }

    /// Publication: the price must lie in the bounds and the content
    /// reference must be well formed; the new record gets the next
    /// identifier and has not been unlocked.
    pub open spec fn publish(
        self,
        owner: AccountId,
        content_ref: Seq<char>,
        preview: Seq<char>,
        price: u128,
    ) -> (LedgerView, Result<u64, LedgerError>) {
        if !(self.min_price <= price <= self.max_price) {
            (self, Err(LedgerError::InvalidPrice))
        } else if !valid_content_ref(vstd::utf8::encode_utf8(content_ref)) {
            (self, Err(LedgerError::InvalidContentReference))
        } else {
            (
                LedgerView {
                    records: self.records.push(Record { owner, price, unlock_count: 0 }),
                    content_refs: self.content_refs.push(content_ref),
                    previews: self.previews.push(preview),
                    ..self
                },
                Ok(self.records.len() as u64),
            )
        }
    }

    /// Unlock: the token must be unspent, the record must exist, the
    /// payment must cover the price and the proof must be accepted; then
    /// the token is spent, the owner is credited with the whole payment and
    /// the record's unlock count goes up by one.
    pub open spec fn unlock(
        self,
        record_id: u64,
        token: UnlockToken,
        authorized: bool,
        amount_paid: u128,
    ) -> (LedgerView, Result<(), LedgerError>) {
        if self.consumed.contains(token) {
            (self, Err(LedgerError::TokenAlreadyConsumed))
        } else if !self.has_record(record_id) {
            (self, Err(LedgerError::RecordNotFound))
        } else if amount_paid < self.records[record_id as int].price {
            (self, Err(LedgerError::InsufficientPayment))
        } else if !authorized {
            (self, Err(LedgerError::InvalidProof))
        } else {
            let r = self.records[record_id as int];
            (
                LedgerView {
                    records: self.records.update(
                        record_id as int,
                        Record { unlock_count: (r.unlock_count + 1) as u64, ..r },
                    ),
                    consumed: self.consumed.insert(token),
                    balances: credited(self.balances, r.owner, amount_paid as nat),
                    ..self
                },
                Ok(()),
            )
        }
    }

    /// The start of a withdrawal: a zero balance is refused; otherwise the
    /// whole balance is taken out and the account's balance becomes zero.
    pub open spec fn begin_withdraw(self, account: AccountId) -> (LedgerView, Result<
        u128,
        LedgerError,
    >) {
        if self.balance(account) == 0 {
            (self, Err(LedgerError::NoEarnings))
        } else {
            (
                LedgerView { balances: with_balance(self.balances, account, 0), ..self },
                Ok(self.balance(account) as u128),
            )
        }
    }

    /// The end of a withdrawal of `amount` for `account`: a completed
    /// transfer leaves the ledger as it is; a failed one gives the amount
    /// back to the account.
    pub open spec fn settle_withdraw(
        self,
        account: AccountId,
        amount: u128,
        transfer_succeeded: bool,
    ) -> (LedgerView, Result<u128, LedgerError>) {
        if transfer_succeeded {
            (self, Ok(amount))
        } else {
            (
                LedgerView { balances: credited(self.balances, account, amount as nat), ..self },
                Err(LedgerError::TransferFailed),
            )
        }
    }
}

} // verus!
