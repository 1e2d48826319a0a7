use merkle_airdrop::campaign::{Error, MerkleAirdrop};
use merkle_airdrop::hashing::{hash_pair, leaf_hash};

const ALICE_AMOUNT: u128 = 100;
const BOB_AMOUNT: u128 = 500;

struct Setup {
    owner: Vec<u8>,
    alice: Vec<u8>,
    bob: Vec<u8>,
    leaf_alice: Vec<u8>,
    leaf_bob: Vec<u8>,
    root: Vec<u8>,
}

fn setup() -> Setup {
    let owner: Vec<u8> = vec![0xCC; 20];
    let alice: Vec<u8> = vec![0xAA; 20];
    let bob: Vec<u8> = vec![0xBB; 20];
    let leaf_alice = leaf_hash(&alice, ALICE_AMOUNT);
    let leaf_bob = leaf_hash(&bob, BOB_AMOUNT);
    let root = hash_pair(&leaf_alice, &leaf_bob);
    Setup { owner, alice, bob, leaf_alice, leaf_bob, root }
}

fn campaign_with_deadline(s: &Setup, end: u64) -> MerkleAirdrop {
    MerkleAirdrop::new(1, s.root.clone(), s.owner.clone(), Some(end), 0)
}

#[test]
fn instantiate() {
    let s = setup();
    let campaign = campaign_with_deadline(&s, 10);
    assert_eq!(campaign.root(), s.root);
    assert_eq!(campaign.asset_id(), 1);
    assert!(!campaign.is_claimed(&s.alice));
    assert!(!campaign.is_claimed(&s.bob));
}

#[test]
fn fund_zero_is_rejected() {
    let s = setup();
    let campaign = campaign_with_deadline(&s, 10);
    assert_eq!(campaign.fund(0), Err(Error::AmountCannotBeZero));
}

#[test]
fn fund_increases_held_balance_by_exactly_the_amount() {
    let s = setup();
    let mut campaign = campaign_with_deadline(&s, 10);
    assert_eq!(campaign.fund(600), Ok(()));
    assert_eq!(campaign.fund_settle(600, true), Ok(()));
    assert_eq!(campaign.total_funded, 600);
    // Funding accumulates over repeated successful operations.
    assert_eq!(campaign.fund(40), Ok(()));
    assert_eq!(campaign.fund_settle(40, true), Ok(()));
    assert_eq!(campaign.total_funded, 640);
}

#[test]
fn fund_with_rejected_transfer_changes_nothing() {
    let s = setup();
    let mut campaign = campaign_with_deadline(&s, 10);
    assert_eq!(campaign.fund(600), Ok(()));
    assert_eq!(campaign.fund_settle(600, false), Err(Error::TransferFailed));
    assert_eq!(campaign.total_funded, 0);
}

#[test]
fn claim_with_valid_proof_succeeds_once() {
    let s = setup();
    let mut campaign = campaign_with_deadline(&s, 10);
    let siblings = vec![s.leaf_bob.clone()];
    assert_eq!(campaign.claim(&s.alice, ALICE_AMOUNT, &siblings, 0, 5), Ok(()));
    assert!(campaign.is_claimed(&s.alice));
    assert!(!campaign.is_claimed(&s.bob));
    let notice = campaign
        .claim_settle(s.alice.clone(), ALICE_AMOUNT, true)
        .expect("settled claim yields the notification");
    assert_eq!(notice.recipient, s.alice);
    assert_eq!(notice.value, ALICE_AMOUNT);
}

#[test]
fn both_recipients_can_claim() {
    let s = setup();
    let mut campaign = campaign_with_deadline(&s, 10);
    assert_eq!(campaign.claim(&s.bob, BOB_AMOUNT, &vec![s.leaf_alice.clone()], 1, 5), Ok(()));
    assert_eq!(campaign.claim(&s.alice, ALICE_AMOUNT, &vec![s.leaf_bob.clone()], 0, 5), Ok(()));
    assert!(campaign.is_claimed(&s.alice));
    assert!(campaign.is_claimed(&s.bob));
}

#[test]
fn second_claim_fails_already_claimed() {
    let s = setup();
    let mut campaign = campaign_with_deadline(&s, 10);
    let siblings = vec![s.leaf_bob.clone()];
    assert_eq!(campaign.claim(&s.alice, ALICE_AMOUNT, &siblings, 0, 5), Ok(()));
    // Same proof again, and a different valid-looking proof: both rejected.
    assert_eq!(
        campaign.claim(&s.alice, ALICE_AMOUNT, &siblings, 0, 6),
        Err(Error::AlreadyClaimed)
    );
    assert_eq!(
        campaign.claim(&s.alice, ALICE_AMOUNT, &vec![s.leaf_alice.clone()], 0, 6),
        Err(Error::AlreadyClaimed)
    );
}

#[test]
fn claim_after_deadline_fails_even_with_valid_proof() {
    let s = setup();
    let mut campaign = campaign_with_deadline(&s, 10);
    let siblings = vec![s.leaf_bob.clone()];
    assert_eq!(
        campaign.claim(&s.alice, ALICE_AMOUNT, &siblings, 0, 11),
        Err(Error::ClaimPeriodOver)
    );
    assert!(!campaign.is_claimed(&s.alice));
    // At the deadline itself the window is still open.
    assert_eq!(campaign.claim(&s.alice, ALICE_AMOUNT, &siblings, 0, 10), Ok(()));
}

#[test]
fn claim_with_wrong_amount_fails_invalid_proof() {
    let s = setup();
    let mut campaign = campaign_with_deadline(&s, 10);
    let siblings = vec![s.leaf_bob.clone()];
    assert_eq!(
        campaign.claim(&s.alice, ALICE_AMOUNT + 1, &siblings, 0, 5),
        Err(Error::InvalidProof)
    );
    assert!(!campaign.is_claimed(&s.alice));
}

#[test]
fn claim_with_wrong_index_fails_invalid_proof() {
    let s = setup();
    let mut campaign = campaign_with_deadline(&s, 10);
    let siblings = vec![s.leaf_bob.clone()];
    assert_eq!(
        campaign.claim(&s.alice, ALICE_AMOUNT, &siblings, 1, 5),
        Err(Error::InvalidProof)
    );
}

#[test]
fn claim_with_wrong_identity_fails_invalid_proof() {
    let s = setup();
    let mut campaign = campaign_with_deadline(&s, 10);
    let intruder: Vec<u8> = vec![0xDD; 20];
    assert_eq!(
        campaign.claim(&intruder, ALICE_AMOUNT, &vec![s.leaf_bob.clone()], 0, 5),
        Err(Error::InvalidProof)
    );
}

// A payout the ledger rejects after a successful verification leaves the
// recipient marked claimed: the allocation is forfeited, not rolled back.
#[test]
fn rejected_payout_keeps_the_claimed_mark() {
    let s = setup();
    let mut campaign = campaign_with_deadline(&s, 10);
    assert_eq!(campaign.claim(&s.alice, ALICE_AMOUNT, &vec![s.leaf_bob.clone()], 0, 5), Ok(()));
    let rejected = campaign.claim_settle(s.alice.clone(), ALICE_AMOUNT, false);
    assert!(matches!(rejected, Err(Error::TransferFailed)));
    assert!(campaign.is_claimed(&s.alice));
    assert_eq!(
        campaign.claim(&s.alice, ALICE_AMOUNT, &vec![s.leaf_bob.clone()], 0, 6),
        Err(Error::AlreadyClaimed)
    );
}

#[test]
fn sweep_by_non_owner_fails_unauthorized() {
    let s = setup();
    let campaign = campaign_with_deadline(&s, 10);
    assert_eq!(campaign.sweep_unclaimed(&s.alice, 20), Err(Error::Unauthorized));
}

#[test]
fn sweep_before_deadline_fails_claim_period_active() {
    let s = setup();
    let campaign = campaign_with_deadline(&s, 10);
    assert_eq!(campaign.sweep_unclaimed(&s.owner, 5), Err(Error::ClaimPeriodActive));
    // The deadline instant itself still counts as active.
    assert_eq!(campaign.sweep_unclaimed(&s.owner, 10), Err(Error::ClaimPeriodActive));
}

#[test]
fn sweep_after_deadline_by_owner_succeeds() {
    let s = setup();
    let campaign = campaign_with_deadline(&s, 10);
    assert_eq!(campaign.sweep_unclaimed(&s.owner, 11), Ok(()));
    assert_eq!(campaign.sweep_settle(true), Ok(()));
    assert_eq!(campaign.sweep_settle(false), Err(Error::TransferFailed));
}

#[test]
fn campaign_without_deadline_never_ends() {
    let s = setup();
    let mut campaign = MerkleAirdrop::new(1, s.root.clone(), s.owner.clone(), None, 0);
    assert_eq!(campaign.sweep_unclaimed(&s.owner, u64::MAX), Err(Error::ClaimPeriodActive));
    assert_eq!(
        campaign.claim(&s.alice, ALICE_AMOUNT, &vec![s.leaf_bob.clone()], 0, u64::MAX),
        Ok(())
    );
}

// Full lifecycle against a simulated token ledger: fund, one claim, then a
// sweep that transfers exactly the remaining balance and leaves zero.
#[test]
fn sweep_transfers_exactly_the_remaining_balance() {
    let s = setup();
    let mut campaign = campaign_with_deadline(&s, 10);

    let mut funder_balance: u128 = 1_000;
    let mut campaign_balance: u128 = 0;
    let mut bob_balance: u128 = 0;
    let mut owner_balance: u128 = 0;

    // Fund: pull transfer from the funder into the campaign.
    assert_eq!(campaign.fund(1_000), Ok(()));
    funder_balance -= 1_000;
    campaign_balance += 1_000;
    assert_eq!(campaign.fund_settle(1_000, true), Ok(()));
    assert_eq!(campaign.total_funded, 1_000);
    assert_eq!(funder_balance, 0);

    // Bob claims; the campaign pays out his allocation.
    assert_eq!(campaign.claim(&s.bob, BOB_AMOUNT, &vec![s.leaf_alice.clone()], 1, 5), Ok(()));
    campaign_balance -= BOB_AMOUNT;
    bob_balance += BOB_AMOUNT;
    assert!(campaign.claim_settle(s.bob.clone(), BOB_AMOUNT, true).is_ok());

    // After the deadline the owner sweeps the whole remainder.
    assert_eq!(campaign.sweep_unclaimed(&s.owner, 11), Ok(()));
    let swept = campaign_balance;
    owner_balance += swept;
    campaign_balance = 0;
    assert_eq!(campaign.sweep_settle(true), Ok(()));

    assert_eq!(bob_balance, BOB_AMOUNT);
    assert_eq!(swept, 1_000 - BOB_AMOUNT);
    assert_eq!(owner_balance, 500);
    assert_eq!(campaign_balance, 0);
}
