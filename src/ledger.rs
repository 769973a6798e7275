//! The ledger: records, spent unlock tokens and creator earnings.
use vstd::prelude::*;
use crate::model::{credited, valid_content_ref, with_balance, LedgerView};
use crate::types::{same_bytes, AccountId, LedgerError, Record, UnlockToken};

verus! {

/// The lowest default price: 0.01 of the currency's unit, in its 18-decimal minor units.
pub const MIN_PRICE: u128 = 10_000_000_000_000_000;

/// The highest default price: 0.10 of the currency's unit, in its 18-decimal minor units.
pub const MAX_PRICE: u128 = 100_000_000_000_000_000;

/// The earnings recorded for `account` in a list of (account, balance)
/// entries, zero when it has none.
pub open spec fn balance_in(entries: Seq<(AccountId, u128)>, account: AccountId) -> nat {
    if exists|i: int| 0 <= i < entries.len() && entries[i].0 == account {
        entries[choose|i: int| 0 <= i < entries.len() && entries[i].0 == account].1 as nat
    } else {
        0
    }
}

/// No account appears twice in the entries.
pub open spec fn keys_unique(entries: Seq<(AccountId, u128)>) -> bool {
    forall|i: int, j: int|
        0 <= i < entries.len() && 0 <= j < entries.len() && entries[i].0 == entries[j].0 ==> i == j
}

proof fn lemma_balance_at(entries: Seq<(AccountId, u128)>, i: int)
    requires
        keys_unique(entries),
        0 <= i < entries.len(),
    ensures
        balance_in(entries, entries[i].0) == entries[i].1 as nat,
{
}

proof fn lemma_balance_after_update(entries: Seq<(AccountId, u128)>, i: int, v: u128, a: AccountId)
    requires
        keys_unique(entries),
        0 <= i < entries.len(),
    ensures
        keys_unique(entries.update(i, (entries[i].0, v))),
        balance_in(entries.update(i, (entries[i].0, v)), a) == if a == entries[i].0 {
            v as nat
        } else {
            balance_in(entries, a)
        },
{
    let e2 = entries.update(i, (entries[i].0, v));
    assert(e2[i].0 == entries[i].0);
    lemma_balance_at(e2, i);
    if a != entries[i].0 {
        if exists|j: int| 0 <= j < entries.len() && entries[j].0 == a {
            let j = choose|j: int| 0 <= j < entries.len() && entries[j].0 == a;
            assert(e2[j] == entries[j]);
            lemma_balance_at(e2, j);
            lemma_balance_at(entries, j);
        } else {
            assert(!exists|j: int| 0 <= j < e2.len() && e2[j].0 == a) by {
                assert forall|j: int| 0 <= j < e2.len() implies e2[j].0 != a by {
                    if j != i {
                        assert(e2[j] == entries[j]);
                    }
                }
            }
        }
    }
}

proof fn lemma_balance_after_push(entries: Seq<(AccountId, u128)>, v: u128, a: AccountId, b: AccountId)
    requires
        keys_unique(entries),
        balance_in(entries, a) == 0,
        forall|j: int| 0 <= j < entries.len() ==> entries[j].0 != a,
    ensures
        keys_unique(entries.push((a, v))),
        balance_in(entries.push((a, v)), b) == if b == a {
            v as nat
        } else {
            balance_in(entries, b)
        },
{
    let e2 = entries.push((a, v));
    let n = entries.len() as int;
    assert(e2[n].0 == a);
    lemma_balance_at(e2, n);
    if b != a {
        if exists|j: int| 0 <= j < entries.len() && entries[j].0 == b {
            let j = choose|j: int| 0 <= j < entries.len() && entries[j].0 == b;
            assert(e2[j] == entries[j]);
            lemma_balance_at(e2, j);
            lemma_balance_at(entries, j);
        } else {
            assert(!exists|j: int| 0 <= j < e2.len() && e2[j].0 == b) by {
                assert forall|j: int| 0 <= j < e2.len() implies e2[j].0 != b by {
                    if j < n {
                        assert(e2[j] == entries[j]);
                    }
                }
            }
        }
    }
}

/// Whether `content_ref` is a well-formed content identifier: it opens
/// with "Qm" or "baf" and is 46 to 64 bytes long.
pub fn is_valid_content_ref(content_ref: &str) -> (r: bool)
    ensures
        r == valid_content_ref(vstd::utf8::encode_utf8(content_ref@)),
{
    let b = content_ref.as_bytes();
    proof {
        assert(b@ == vstd::utf8::encode_utf8(content_ref@));
    }
    let n = b.len();
    if n < 46 || n > 64 {
        return false;
    }
    (b[0] == 0x51u8 && b[1] == 0x6du8) || (b[0] == 0x62u8 && b[1] == 0x61u8 && b[2] == 0x66u8)
}

/// The placeholder unlock authorization: a proof is accepted when it holds
/// at least 32 bytes. The record and the token are not examined, and
/// nothing is spent.
pub fn verify_payment_proof(proof: &[u8], _article_id: u64, _nullifier: &UnlockToken) -> (r: bool)
    ensures
        r == (proof@.len() >= 32),
{
    proof.len() >= 32
}

/// A pay-per-unlock ledger.
///
/// Every operation either commits all of its writes or none of them; the one
/// compensating write is the restoration of a balance after a failed
/// withdrawal transfer.
pub struct WikiPayContract {
    min_price: u128,
    max_price: u128,
    records: Vec<Record>,
    ipfs_hashes: Vec<String>,
    previews: Vec<String>,
    nullifiers: Vec<UnlockToken>,
    earnings: Vec<(AccountId, u128)>,
}

/// A withdrawal whose balance has been debited and whose transfer has not
/// been settled yet. Only the ledger can make one, and settling consumes it.
pub struct PendingWithdrawal {
    account: AccountId,
    amount: u128,
}

impl PendingWithdrawal {
    /// The account being paid.
    pub closed spec fn spec_account(&self) -> AccountId {
        self.account
    }

    /// The amount debited.
    pub closed spec fn spec_amount(&self) -> u128 {
        self.amount
    }

    /// The account being paid.
    pub fn account(&self) -> (r: AccountId)
        ensures
            r == self.spec_account(),
    {
        self.account
    }

    /// The amount debited, to be transferred to the account.
    pub fn amount(&self) -> (r: u128)
        ensures
            r == self.spec_amount(),
    {
        self.amount
    }
}

impl View for WikiPayContract {
    type V = LedgerView;

    closed spec fn view(&self) -> LedgerView {
        LedgerView {
            min_price: self.min_price,
            max_price: self.max_price,
            records: self.records@,
            content_refs: self.ipfs_hashes@.map_values(|s: String| s@),
            previews: self.previews@.map_values(|s: String| s@),
            consumed: self.nullifiers@.to_set(),
            balances: |a: AccountId| balance_in(self.earnings@, a),
        }
    }
}

impl WikiPayContract {
    /// The ledger's internal consistency: one content reference and one
    /// preview per record, one earnings entry per account, and record
    /// identifiers that fit in a `u64`.
    pub closed spec fn wf(&self) -> bool {
        &&& self.ipfs_hashes@.len() == self.records@.len()
        &&& self.previews@.len() == self.records@.len()
        &&& self.records@.len() <= u64::MAX
        &&& keys_unique(self.earnings@)
    }

    /// An empty ledger that accepts prices between `min_price` and
    /// `max_price`, both included.
    pub fn with_price_bounds(min_price: u128, max_price: u128) -> (r: Self)
        ensures
            r.wf(),
            r@.min_price == min_price,
            r@.max_price == max_price,
            r@.records.len() == 0,
            r@.content_refs.len() == 0,
            r@.previews.len() == 0,
            r@.consumed == Set::<UnlockToken>::empty(),
            forall|a: AccountId| r@.balance(a) == 0,
    {
        let r = WikiPayContract {
            min_price,
            max_price,
            records: Vec::new(),
            ipfs_hashes: Vec::new(),
            previews: Vec::new(),
            nullifiers: Vec::new(),
            earnings: Vec::new(),
        };
        proof {
            assert(r.nullifiers@.to_set() =~= Set::<UnlockToken>::empty());
        }
        r
    }

    /// An empty ledger with the default price bounds, 0.01 to 0.10 of the
    /// currency's unit.
    pub fn new() -> (r: Self)
        ensures
            r.wf(),
            r@.min_price == MIN_PRICE,
            r@.max_price == MAX_PRICE,
            r@.records.len() == 0,
            r@.content_refs.len() == 0,
            r@.previews.len() == 0,
            r@.consumed == Set::<UnlockToken>::empty(),
            forall|a: AccountId| r@.balance(a) == 0,
    {
        Self::with_price_bounds(MIN_PRICE, MAX_PRICE)
    }

    /// Publishes a record owned by `owner` at `price`, with a content
    /// reference and a public preview. The record gets the next identifier,
    /// which is returned. Fails with `InvalidPrice` when the price lies
    /// outside the ledger's bounds, else with `InvalidContentReference` when
    /// the content reference is malformed; a failure changes nothing.
    pub fn publish_article(
        &mut self,
        owner: AccountId,
        preview: String,
        ipfs_hash: String,
        price: u128,
    ) -> (r: Result<u64, LedgerError>)
        requires
            old(self).wf(),
            old(self)@.records.len() < u64::MAX,
        ensures
            final(self).wf(),
            (final(self)@, r) == old(self)@.publish(owner, ipfs_hash@, preview@, price),
    {
        if price < self.min_price || price > self.max_price {
            return Err(LedgerError::InvalidPrice);
        }
        if !is_valid_content_ref(ipfs_hash.as_str()) {
            return Err(LedgerError::InvalidContentReference);
        }
        let id = self.records.len() as u64;
        self.records.push(Record { owner, price, unlock_count: 0 });
        self.ipfs_hashes.push(ipfs_hash);
        self.previews.push(preview);
        proof {
            let post = old(self)@.publish(owner, ipfs_hash@, preview@, price).0;
            assert(self@.records =~= post.records);
            assert(self@.content_refs =~= post.content_refs);
            assert(self@.previews =~= post.previews);
            assert(self@.balances =~= post.balances);
        }
        Ok(id)
    }

    /// Unlocks record `record_id` with the single-use `token`, paid with
    /// `amount_paid`; `proof_accepted` is the verdict of the unlock
    /// authorization on the token and its proof. The checks run in this
    /// order, and the first that fails decides the error and leaves the
    /// ledger unchanged: the token is unspent (`TokenAlreadyConsumed`), the
    /// record exists (`RecordNotFound`), the payment covers the price
    /// (`InsufficientPayment`), the proof was accepted (`InvalidProof`). On
    /// success the token is spent, the owner is credited with the whole
    /// payment and the record's unlock count goes up by one.
    pub fn unlock_article_anonymous(
        &mut self,
        record_id: u64,
        token: UnlockToken,
        proof_accepted: bool,
        amount_paid: u128,
    ) -> (r: Result<(), LedgerError>)
        requires
            old(self).wf(),
            old(self)@.unlock_fits(record_id, amount_paid),
        ensures
            final(self).wf(),
            (final(self)@, r) == old(self)@.unlock(record_id, token, proof_accepted, amount_paid),
    {
        if self.is_nullifier_used(&token) {
            return Err(LedgerError::TokenAlreadyConsumed);
        }
        if record_id >= self.records.len() as u64 {
            return Err(LedgerError::RecordNotFound);
        }
        let rec = self.records[record_id as usize];
        if amount_paid < rec.price {
            return Err(LedgerError::InsufficientPayment);
        }
        if !proof_accepted {
            return Err(LedgerError::InvalidProof);
        }
        let ghost pre = self@;
        self.nullifiers.push(token);
        let owed = self.get_creator_earnings(&rec.owner);
        self.set_balance(rec.owner, owed + amount_paid);
        self.records.set(
            record_id as usize,
            Record { owner: rec.owner, price: rec.price, unlock_count: rec.unlock_count + 1 },
        );
        proof {
            let post = pre.unlock(record_id, token, proof_accepted, amount_paid).0;
            assert(self@.records =~= post.records);
            assert(self@.consumed =~= post.consumed) by {
                old(self).nullifiers@.lemma_push_to_set_commute(token);
            }
            assert(self@.balances =~= post.balances);
            assert(self@.content_refs =~= post.content_refs);
            assert(self@.previews =~= post.previews);
        }
        Ok(())
    }

    /// Starts paying out the earnings of `account`: fails with `NoEarnings`
    /// when there are none, and otherwise sets the balance to zero before any
    /// transfer is made, so that a transfer that calls back into the ledger
    /// finds nothing left to take. The returned withdrawal carries the
    /// amount to transfer and must be settled with `settle_withdrawal`.
    pub fn withdraw_earnings(&mut self, account: AccountId) -> (r: Result<
        PendingWithdrawal,
        LedgerError,
    >)
        requires
            old(self).wf(),
        ensures
            final(self).wf(),
            match r {
                Ok(p) => p.spec_account() == account && (final(self)@, Ok::<u128, LedgerError>(p.spec_amount()))
                    == old(self)@.begin_withdraw(account),
                Err(e) => (final(self)@, Err::<u128, LedgerError>(e)) == old(self)@.begin_withdraw(account),
            },
    {
        let amount = self.get_creator_earnings(&account);
        if amount == 0 {
            return Err(LedgerError::NoEarnings);
        }
        let ghost pre = self@;
        self.set_balance(account, 0);
        proof {
            assert(self@.balances =~= pre.begin_withdraw(account).0.balances);
        }
        Ok(PendingWithdrawal { account, amount })
    }

    /// Settles a withdrawal once its transfer has run. A completed transfer
    /// returns the amount paid out and leaves the ledger as it is; a failed
    /// one gives the amount back to the account and fails with
    /// `TransferFailed`.
    pub fn settle_withdrawal(&mut self, pending: PendingWithdrawal, transfer_succeeded: bool) -> (r:
        Result<u128, LedgerError>)
        requires
            old(self).wf(),
            old(self)@.balance(pending.spec_account()) + pending.spec_amount() <= u128::MAX,
        ensures
            final(self).wf(),
            (final(self)@, r) == old(self)@.settle_withdraw(
                pending.spec_account(),
                pending.spec_amount(),
                transfer_succeeded,
            ),
    {
        if transfer_succeeded {
            return Ok(pending.amount);
        }
        let ghost pre = self@;
        let owed = self.get_creator_earnings(&pending.account);
        self.set_balance(pending.account, owed + pending.amount);
        proof {
            assert(self@.balances =~= pre.settle_withdraw(
                pending.account,
                pending.amount,
                false,
            ).0.balances);
        }
        Err(LedgerError::TransferFailed)
    }

    /// Sets the earnings of `account` to `amount`, leaving everything else.
    fn set_balance(&mut self, account: AccountId, amount: u128)
        requires
            old(self).wf(),
        ensures
            final(self).wf(),
            final(self)@.balances == with_balance(old(self)@.balances, account, amount as nat),
            final(self).records == old(self).records,
            final(self).ipfs_hashes == old(self).ipfs_hashes,
            final(self).previews == old(self).previews,
            final(self).nullifiers == old(self).nullifiers,
            final(self).min_price == old(self).min_price,
            final(self).max_price == old(self).max_price,
    {
        match self.find_account(&account) {
            Some(i) => {
                proof {
                    assert forall|a: AccountId|
                        balance_in(self.earnings@.update(i as int, (account, amount)), a) == with_balance(
                            old(self)@.balances,
                            account,
                            amount as nat,
                        )(a) by {
                        lemma_balance_after_update(self.earnings@, i as int, amount, a);
                    }
                    lemma_balance_after_update(self.earnings@, i as int, amount, account);
                }
                self.earnings.set(i, (account, amount));
            },
            None => {
                proof {
                    assert forall|a: AccountId|
                        balance_in(self.earnings@.push((account, amount)), a) == with_balance(
                            old(self)@.balances,
                            account,
                            amount as nat,
                        )(a) by {
                        lemma_balance_after_push(self.earnings@, amount, account, a);
                    }
                    lemma_balance_after_push(self.earnings@, amount, account, account);
                }
                self.earnings.push((account, amount));
            },
        }
        proof {
            assert(self@.balances =~= with_balance(old(self)@.balances, account, amount as nat));
        }
    }

    /// The metadata of record `record_id`, or `RecordNotFound`.
    pub fn get_article(&self, record_id: u64) -> (r: Result<Record, LedgerError>)
        requires
            self.wf(),
        ensures
            self@.has_record(record_id) ==> r == Ok::<Record, LedgerError>(
                self@.records[record_id as int],
            ),
            !self@.has_record(record_id) ==> r == Err::<Record, LedgerError>(
                LedgerError::RecordNotFound,
            ),
    {
        if record_id >= self.records.len() as u64 {
            return Err(LedgerError::RecordNotFound);
        }
        Ok(self.records[record_id as usize])
    }

    /// The content reference of record `record_id`, or `RecordNotFound`.
    pub fn get_ipfs_hash(&self, record_id: u64) -> (r: Result<String, LedgerError>)
        requires
            self.wf(),
        ensures
            match r {
                Ok(s) => self@.has_record(record_id) && s@ == self@.content_refs[record_id as int],
                Err(e) => !self@.has_record(record_id) && e == LedgerError::RecordNotFound,
            },
    {
        if record_id >= self.records.len() as u64 {
            return Err(LedgerError::RecordNotFound);
        }
        Ok(self.ipfs_hashes[record_id as usize].clone())
    }

    /// The public preview of record `record_id`, or `RecordNotFound`.
    pub fn get_preview(&self, record_id: u64) -> (r: Result<String, LedgerError>)
        requires
            self.wf(),
        ensures
            match r {
                Ok(s) => self@.has_record(record_id) && s@ == self@.previews[record_id as int],
                Err(e) => !self@.has_record(record_id) && e == LedgerError::RecordNotFound,
            },
    {
        if record_id >= self.records.len() as u64 {
            return Err(LedgerError::RecordNotFound);
        }
        Ok(self.previews[record_id as usize].clone())
    }

    /// Where `account` sits among the earnings entries, if anywhere.
    fn find_account(&self, account: &AccountId) -> (r: Option<usize>)
        requires
            self.wf(),
        ensures
            match r {
                Some(i) => i < self.earnings@.len() && self.earnings@[i as int].0 == *account,
                None => forall|j: int|
                    0 <= j < self.earnings@.len() ==> self.earnings@[j].0 != *account,
            },
    {
        let mut i: usize = 0;
        while i < self.earnings.len()
            invariant
                0 <= i <= self.earnings@.len(),
                forall|j: int| 0 <= j < i ==> self.earnings@[j].0 != *account,
            decreases self.earnings@.len() - i,
        {
            if same_bytes(&self.earnings[i].0, account) {
                return Some(i);
            }
            i = i + 1;
        }
        None
    }

    /// Whether `token` has already authorized an unlock.
    pub fn is_nullifier_used(&self, token: &UnlockToken) -> (r: bool)
        ensures
            r == self@.consumed.contains(*token),
    {
        let mut i: usize = 0;
        while i < self.nullifiers.len()
            invariant
                0 <= i <= self.nullifiers@.len(),
                forall|j: int| 0 <= j < i ==> self.nullifiers@[j] != *token,
            decreases self.nullifiers@.len() - i,
        {
            if same_bytes(&self.nullifiers[i], token) {
                assert(self.nullifiers@.to_set().contains(self.nullifiers@[i as int]));
                return true;
            }
            i = i + 1;
        }
        false
    }

    /// The earnings currently owed to `account`.
    pub fn get_creator_earnings(&self, account: &AccountId) -> (r: u128)
        requires
            self.wf(),
        ensures
            r as nat == self@.balance(*account),
    {
        match self.find_account(account) {
            Some(i) => {
                proof {
                    lemma_balance_at(self.earnings@, i as int);
                }
                self.earnings[i].1
            },
            None => 0,
        }
    }

    /// How many records have been published; also the identifier the next
    /// record will get.
    pub fn get_total_articles(&self) -> (r: u64)
        requires
            self.wf(),
        ensures
            r as nat == self@.records.len(),
    {
        self.records.len() as u64
    }
}

} // verus!
