//! Properties of the ledger that hold across operations and across whole
//! runs of operations.
use vstd::prelude::*;
use crate::model::LedgerView;
use crate::types::{AccountId, LedgerError, UnlockToken};

verus! {

/// One operation on the ledger, with the values its caller supplies.
pub enum LedgerOp {
    /// A publication by `owner`.
    Publish { owner: AccountId, content_ref: Seq<char>, preview: Seq<char>, price: u128 },
    /// An unlock, with the authorization's verdict on its proof.
    Unlock { record_id: u64, token: UnlockToken, authorized: bool, amount_paid: u128 },
    /// The debit that opens a withdrawal.
    BeginWithdraw { account: AccountId },
    /// The settlement of a withdrawal once its transfer has run.
    SettleWithdraw { account: AccountId, amount: u128, transfer_succeeded: bool },
}

/// The ledger after one operation, whether it succeeded or not.
pub open spec fn step(v: LedgerView, op: LedgerOp) -> LedgerView {
    match op {
        LedgerOp::Publish { owner, content_ref, preview, price } => v.publish(
            owner,
            content_ref,
            preview,
            price,
        ).0,
        LedgerOp::Unlock { record_id, token, authorized, amount_paid } => v.unlock(
            record_id,
            token,
            authorized,
            amount_paid,
        ).0,
        LedgerOp::BeginWithdraw { account } => v.begin_withdraw(account).0,
        LedgerOp::SettleWithdraw { account, amount, transfer_succeeded } => v.settle_withdraw(
            account,
            amount,
            transfer_succeeded,
        ).0,
    }
}

/// The ledger after a run of operations, applied in order.
pub open spec fn run(v: LedgerView, ops: Seq<LedgerOp>) -> LedgerView
    decreases ops.len(),
{
    if ops.len() == 0 {
        v
    } else {
        run(step(v, ops[0]), ops.skip(1))
    }
}

/// The identifiers returned by the successful publications of a run, in
/// order.
pub open spec fn published_ids(v: LedgerView, ops: Seq<LedgerOp>) -> Seq<u64>
    decreases ops.len(),
{
    if ops.len() == 0 {
        Seq::empty()
    } else {
        let first = match ops[0] {
            LedgerOp::Publish { owner, content_ref, preview, price } => match v.publish(
                owner,
                content_ref,
                preview,
                price,
            ).1 {
                Ok(id) => seq![id],
                Err(_) => Seq::empty(),
            },
            _ => Seq::empty(),
        };
        first + published_ids(step(v, ops[0]), ops.skip(1))
    }
}

/// How many unlocks of a run that present `token` succeed.
pub open spec fn successful_unlocks(v: LedgerView, ops: Seq<LedgerOp>, token: UnlockToken) -> nat
    decreases ops.len(),
{
    if ops.len() == 0 {
        0
    } else {
        let first: nat = match ops[0] {
            LedgerOp::Unlock { record_id, token: t, authorized, amount_paid } => if t == token
                && v.unlock(record_id, t, authorized, amount_paid).1 is Ok {
                1
            } else {
                0
            },
            _ => 0,
        };
        first + successful_unlocks(step(v, ops[0]), ops.skip(1), token)
    }
}

/// A publication at a price outside the bounds fails with `InvalidPrice`
/// and leaves the ledger, and so its record count, unchanged.
pub proof fn lemma_price_out_of_bounds_rejected(
    v: LedgerView,
    owner: AccountId,
    content_ref: Seq<char>,
    preview: Seq<char>,
    price: u128,
)
    requires
        price < v.min_price || price > v.max_price,
    ensures
        v.publish(owner, content_ref, preview, price) == (v, Err::<u64, LedgerError>(
            LedgerError::InvalidPrice,
        )),
        v.publish(owner, content_ref, preview, price).0.records.len() == v.records.len(),
{
}

/// Only a successful publication changes the number of records, and it
/// adds exactly one, whose identifier is the old count.
proof fn lemma_step_record_count(v: LedgerView, op: LedgerOp)
    ensures
        match op {
            LedgerOp::Publish { owner, content_ref, preview, price } => match v.publish(
                owner,
                content_ref,
                preview,
                price,
            ).1 {
                Ok(id) => id == v.records.len() as u64 && step(v, op).records.len()
                    == v.records.len() + 1,
                Err(_) => step(v, op).records.len() == v.records.len(),
            },
            _ => step(v, op).records.len() == v.records.len(),
        },
{
}

/// Over any run of operations, the successful publications return the
/// identifiers that follow the records already present, one after another
/// with no gap or repeat: from an empty ledger they are 0, 1, 2, ...
pub proof fn lemma_record_ids_sequential(v: LedgerView, ops: Seq<LedgerOp>)
    requires
        v.records.len() + ops.len() <= u64::MAX,
    ensures
        run(v, ops).records.len() == v.records.len() + published_ids(v, ops).len(),
        forall|i: int|
            0 <= i < published_ids(v, ops).len() ==> published_ids(v, ops)[i] == v.records.len()
                + i,
    decreases ops.len(),
{
    if ops.len() > 0 {
        let v1 = step(v, ops[0]);
        lemma_step_record_count(v, ops[0]);
        lemma_record_ids_sequential(v1, ops.skip(1));
        let rest = published_ids(v1, ops.skip(1));
        let all = published_ids(v, ops);
        assert forall|i: int| 0 <= i < all.len() implies all[i] == v.records.len() + i by {
            if v1.records.len() == v.records.len() + 1 {
                if i > 0 {
                    assert(all[i] == rest[i - 1]);
                }
            } else {
                assert(all[i] == rest[i]);
            }
        }
    }
}

/// No operation un-spends a token.
proof fn lemma_step_keeps_consumed(v: LedgerView, op: LedgerOp, token: UnlockToken)
    requires
        v.consumed.contains(token),
    ensures
        step(v, op).consumed.contains(token),
{
}

/// An unlock that presents a spent token fails with
/// `TokenAlreadyConsumed`, whatever record it names, and changes nothing.
pub proof fn lemma_spent_token_refused(
    v: LedgerView,
    record_id: u64,
    token: UnlockToken,
    authorized: bool,
    amount_paid: u128,
)
    requires
        v.consumed.contains(token),
    ensures
        v.unlock(record_id, token, authorized, amount_paid) == (v, Err::<(), LedgerError>(
            LedgerError::TokenAlreadyConsumed,
        )),
{
}

/// Over any run of operations, at most one unlock presenting a given token
/// succeeds, and none does once the token is spent.
pub proof fn lemma_token_unlocks_at_most_once(v: LedgerView, ops: Seq<LedgerOp>, token: UnlockToken)
    ensures
        successful_unlocks(v, ops, token) <= 1,
        v.consumed.contains(token) ==> successful_unlocks(v, ops, token) == 0,
    decreases ops.len(),
{
    if ops.len() > 0 {
        let v1 = step(v, ops[0]);
        lemma_token_unlocks_at_most_once(v1, ops.skip(1), token);
        if v.consumed.contains(token) {
            lemma_step_keeps_consumed(v, ops[0], token);
        }
        match ops[0] {
            LedgerOp::Unlock { record_id, token: t, authorized, amount_paid } => {
                if t == token && v.unlock(record_id, t, authorized, amount_paid).1 is Ok {
                    assert(v1.consumed.contains(token));
                }
            },
            _ => {},
        }
    }
}

/// A successful unlock paying `amount_paid` credits exactly that amount to
/// the record's owner, changes no other balance, and raises the record's
/// unlock count by exactly one.
pub proof fn lemma_unlock_credits_owner(
    v: LedgerView,
    record_id: u64,
    token: UnlockToken,
    authorized: bool,
    amount_paid: u128,
)
    requires
        v.unlock_fits(record_id, amount_paid),
        v.unlock(record_id, token, authorized, amount_paid).1 is Ok,
    ensures
        ({
            let after = v.unlock(record_id, token, authorized, amount_paid).0;
            let owner = v.records[record_id as int].owner;
            &&& after.balance(owner) == v.balance(owner) + amount_paid
            &&& forall|a: AccountId| a != owner ==> after.balance(a) == v.balance(a)
            &&& after.records[record_id as int].unlock_count == v.records[record_id as int].unlock_count
                + 1
            &&& after.records.len() == v.records.len()
        }),
{
}

/// A withdrawal from an account with nothing owed fails with `NoEarnings`
/// and the balance stays zero.
pub proof fn lemma_withdraw_nothing_owed(v: LedgerView, account: AccountId)
    requires
        v.balance(account) == 0,
    ensures
        v.begin_withdraw(account) == (v, Err::<u128, LedgerError>(LedgerError::NoEarnings)),
        v.begin_withdraw(account).0.balance(account) == 0,
{
}

/// A withdrawal whose transfer fails reports `TransferFailed` and leaves the
/// ledger, the account's balance included, exactly as it was before.
pub proof fn lemma_failed_transfer_restores(v: LedgerView, account: AccountId)
    requires
        0 < v.balance(account) <= u128::MAX,
    ensures
        ({
            let (v1, r) = v.begin_withdraw(account);
            &&& r is Ok
            &&& v1.settle_withdraw(account, r->Ok_0, false).1 == Err::<u128, LedgerError>(
                LedgerError::TransferFailed,
            )
            &&& v1.settle_withdraw(account, r->Ok_0, false).0 == v
            &&& v1.settle_withdraw(account, r->Ok_0, false).0.balance(account) == v.balance(account)
        }),
{
    let (v1, r) = v.begin_withdraw(account);
    let v2 = v1.settle_withdraw(account, r->Ok_0, false).0;
    assert forall|a: AccountId| #[trigger] v2.balance(a) == v.balance(a) by {}
    assert(v2.balances =~= v.balances);
}

} // verus!
