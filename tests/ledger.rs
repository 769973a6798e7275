use wikipay::{
    is_valid_content_ref, verify_payment_proof, AccountId, LedgerError, UnlockToken,
    WikiPayContract, MAX_PRICE, MIN_PRICE,
};

const ALICE: AccountId = [0xa1; 20];
const BOB: AccountId = [0xb0; 20];
const CAROL: AccountId = [0xc4; 20];
const T1: UnlockToken = [0x11; 32];
const T2: UnlockToken = [0x22; 32];

fn cid_v0() -> String {
    format!("Qm{}", "a".repeat(44))
}

fn usdc_ledger() -> WikiPayContract {
    WikiPayContract::with_price_bounds(10_000, 100_000)
}

fn publish(l: &mut WikiPayContract, owner: AccountId, price: u128) -> Result<u64, LedgerError> {
    l.publish_article(owner, "preview".to_string(), cid_v0(), price)
}

#[test]
fn scenario_publish_unlock_twice_then_withdraw() {
    let mut l = usdc_ledger();
    assert_eq!(publish(&mut l, ALICE, 50_000), Ok(0));
    assert_eq!(l.unlock_article_anonymous(0, T1, true, 50_000), Ok(()));
    assert_eq!(l.get_creator_earnings(&ALICE), 50_000);
    assert_eq!(l.get_article(0).unwrap().unlock_count, 1);
    assert_eq!(
        l.unlock_article_anonymous(0, T1, true, 50_000),
        Err(LedgerError::TokenAlreadyConsumed)
    );
    assert_eq!(l.get_creator_earnings(&ALICE), 50_000);
    assert_eq!(l.get_article(0).unwrap().unlock_count, 1);
    let pending = l.withdraw_earnings(ALICE).unwrap();
    assert_eq!(pending.account(), ALICE);
    assert_eq!(pending.amount(), 50_000);
    assert_eq!(l.get_creator_earnings(&ALICE), 0);
    assert_eq!(l.settle_withdrawal(pending, true), Ok(50_000));
    assert_eq!(l.get_creator_earnings(&ALICE), 0);
}

#[test]
fn scenario_underpaid_unlock_keeps_token() {
    let mut l = usdc_ledger();
    assert_eq!(publish(&mut l, ALICE, 50_000), Ok(0));
    assert_eq!(
        l.unlock_article_anonymous(0, T1, true, 49_999),
        Err(LedgerError::InsufficientPayment)
    );
    assert_eq!(l.get_creator_earnings(&ALICE), 0);
    assert_eq!(l.get_article(0).unwrap().unlock_count, 0);
    assert!(!l.is_nullifier_used(&T1));
    assert_eq!(l.unlock_article_anonymous(0, T1, true, 50_000), Ok(()));
    assert!(l.is_nullifier_used(&T1));
}

#[test]
fn price_outside_bounds_is_rejected() {
    let mut l = usdc_ledger();
    assert_eq!(publish(&mut l, ALICE, 9_999), Err(LedgerError::InvalidPrice));
    assert_eq!(publish(&mut l, ALICE, 100_001), Err(LedgerError::InvalidPrice));
    assert_eq!(publish(&mut l, ALICE, 0), Err(LedgerError::InvalidPrice));
    assert_eq!(l.get_total_articles(), 0);
    assert_eq!(publish(&mut l, ALICE, 10_000), Ok(0));
    assert_eq!(publish(&mut l, ALICE, 100_000), Ok(1));
    assert_eq!(l.get_total_articles(), 2);
}

#[test]
fn invalid_price_wins_over_bad_content_reference() {
    let mut l = usdc_ledger();
    let r = l.publish_article(ALICE, String::new(), "nope".to_string(), 1);
    assert_eq!(r, Err(LedgerError::InvalidPrice));
}

#[test]
fn default_bounds_follow_the_constants() {
    let mut l = WikiPayContract::new();
    assert_eq!(MIN_PRICE, 10_000_000_000_000_000);
    assert_eq!(MAX_PRICE, 100_000_000_000_000_000);
    assert_eq!(publish(&mut l, ALICE, MIN_PRICE - 1), Err(LedgerError::InvalidPrice));
    assert_eq!(publish(&mut l, ALICE, MAX_PRICE + 1), Err(LedgerError::InvalidPrice));
    assert_eq!(publish(&mut l, ALICE, MIN_PRICE), Ok(0));
    assert_eq!(publish(&mut l, ALICE, MAX_PRICE), Ok(1));
}

#[test]
fn record_ids_are_sequential_without_gaps() {
    let mut l = usdc_ledger();
    assert_eq!(publish(&mut l, ALICE, 20_000), Ok(0));
    assert_eq!(publish(&mut l, BOB, 5), Err(LedgerError::InvalidPrice));
    assert_eq!(l.unlock_article_anonymous(0, T1, true, 20_000), Ok(()));
    assert_eq!(publish(&mut l, BOB, 30_000), Ok(1));
    assert_eq!(publish(&mut l, CAROL, 40_000), Ok(2));
    assert_eq!(l.get_total_articles(), 3);
    assert_eq!(l.get_article(2).unwrap().owner, CAROL);
}

#[test]
fn spent_token_is_refused_on_every_record() {
    let mut l = usdc_ledger();
    publish(&mut l, ALICE, 20_000).unwrap();
    publish(&mut l, BOB, 20_000).unwrap();
    assert_eq!(l.unlock_article_anonymous(0, T1, true, 20_000), Ok(()));
    assert_eq!(
        l.unlock_article_anonymous(1, T1, true, 20_000),
        Err(LedgerError::TokenAlreadyConsumed)
    );
    assert_eq!(
        l.unlock_article_anonymous(7, T1, true, 20_000),
        Err(LedgerError::TokenAlreadyConsumed)
    );
    assert_eq!(l.get_creator_earnings(&BOB), 0);
    assert_eq!(l.unlock_article_anonymous(1, T2, true, 20_000), Ok(()));
    assert_eq!(l.get_creator_earnings(&BOB), 20_000);
}

#[test]
fn unlock_credits_the_whole_payment_to_the_owner_only() {
    let mut l = usdc_ledger();
    publish(&mut l, ALICE, 20_000).unwrap();
    publish(&mut l, BOB, 30_000).unwrap();
    assert_eq!(l.unlock_article_anonymous(1, T1, true, 45_000), Ok(()));
    assert_eq!(l.get_creator_earnings(&BOB), 45_000);
    assert_eq!(l.get_creator_earnings(&ALICE), 0);
    assert_eq!(l.get_article(1).unwrap().unlock_count, 1);
    assert_eq!(l.get_article(0).unwrap().unlock_count, 0);
    assert_eq!(l.unlock_article_anonymous(1, T2, true, 30_000), Ok(()));
    assert_eq!(l.get_creator_earnings(&BOB), 75_000);
    assert_eq!(l.get_article(1).unwrap().unlock_count, 2);
}

#[test]
fn unlock_of_missing_record_fails() {
    let mut l = usdc_ledger();
    publish(&mut l, ALICE, 20_000).unwrap();
    assert_eq!(
        l.unlock_article_anonymous(1, T1, true, 20_000),
        Err(LedgerError::RecordNotFound)
    );
    assert!(!l.is_nullifier_used(&T1));
}

#[test]
fn rejected_proof_changes_nothing() {
    let mut l = usdc_ledger();
    publish(&mut l, ALICE, 20_000).unwrap();
    assert_eq!(
        l.unlock_article_anonymous(0, T1, false, 20_000),
        Err(LedgerError::InvalidProof)
    );
    assert!(!l.is_nullifier_used(&T1));
    assert_eq!(l.get_creator_earnings(&ALICE), 0);
    assert_eq!(l.get_article(0).unwrap().unlock_count, 0);
}

#[test]
fn withdraw_without_earnings_fails() {
    let mut l = usdc_ledger();
    assert_eq!(l.withdraw_earnings(ALICE).err(), Some(LedgerError::NoEarnings));
    assert_eq!(l.get_creator_earnings(&ALICE), 0);
}

#[test]
fn failed_transfer_restores_the_balance() {
    let mut l = usdc_ledger();
    publish(&mut l, ALICE, 20_000).unwrap();
    l.unlock_article_anonymous(0, T1, true, 25_000).unwrap();
    let pending = l.withdraw_earnings(ALICE).unwrap();
    assert_eq!(l.get_creator_earnings(&ALICE), 0);
    assert_eq!(l.withdraw_earnings(ALICE).err(), Some(LedgerError::NoEarnings));
    assert_eq!(l.settle_withdrawal(pending, false), Err(LedgerError::TransferFailed));
    assert_eq!(l.get_creator_earnings(&ALICE), 25_000);
    let again = l.withdraw_earnings(ALICE).unwrap();
    assert_eq!(again.amount(), 25_000);
    assert_eq!(l.settle_withdrawal(again, true), Ok(25_000));
    assert_eq!(l.get_creator_earnings(&ALICE), 0);
}

#[test]
fn reads_of_missing_records_signal_absence() {
    let l = usdc_ledger();
    assert_eq!(l.get_article(0), Err(LedgerError::RecordNotFound));
    assert_eq!(l.get_ipfs_hash(0), Err(LedgerError::RecordNotFound));
    assert_eq!(l.get_preview(0), Err(LedgerError::RecordNotFound));
}

#[test]
fn content_and_preview_are_kept() {
    let mut l = usdc_ledger();
    let cid = format!("bafy{}", "b".repeat(55));
    assert_eq!(
        l.publish_article(ALICE, "first words".to_string(), cid.clone(), 20_000),
        Ok(0)
    );
    assert_eq!(l.get_ipfs_hash(0), Ok(cid));
    assert_eq!(l.get_preview(0), Ok("first words".to_string()));
    let rec = l.get_article(0).unwrap();
    assert_eq!(rec.owner, ALICE);
    assert_eq!(rec.price, 20_000);
    assert_eq!(rec.unlock_count, 0);
}

#[test]
fn malformed_content_reference_is_rejected() {
    let mut l = usdc_ledger();
    let bad_prefix = format!("Xm{}", "a".repeat(44));
    assert_eq!(
        l.publish_article(ALICE, String::new(), bad_prefix, 20_000),
        Err(LedgerError::InvalidContentReference)
    );
    let short = format!("Qm{}", "a".repeat(43));
    assert_eq!(
        l.publish_article(ALICE, String::new(), short, 20_000),
        Err(LedgerError::InvalidContentReference)
    );
    let long = format!("baf{}", "a".repeat(62));
    assert_eq!(
        l.publish_article(ALICE, String::new(), long, 20_000),
        Err(LedgerError::InvalidContentReference)
    );
    assert_eq!(l.get_total_articles(), 0);
}

#[test]
fn content_reference_bounds() {
    assert!(is_valid_content_ref(&format!("Qm{}", "a".repeat(44))));
    assert!(is_valid_content_ref(&format!("baf{}", "a".repeat(61))));
    assert!(!is_valid_content_ref(&format!("baf{}", "a".repeat(62))));
    assert!(!is_valid_content_ref(&format!("ba{}", "a".repeat(50))));
    assert!(!is_valid_content_ref(""));
}

#[test]
fn placeholder_proof_needs_thirty_two_bytes() {
    assert!(!verify_payment_proof(&[1u8; 31], 0, &T1));
    assert!(verify_payment_proof(&[0u8; 32], 0, &T1));
    assert!(verify_payment_proof(&[9u8; 64], 3, &T2));
}
