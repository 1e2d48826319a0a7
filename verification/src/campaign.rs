//! The airdrop campaign lifecycle.
//!
//! A campaign commits to a Merkle root over `(identity, amount)` leaves,
//! holds tokens pulled in by `fund`, pays each committed recipient at most
//! once through `claim`, and lets the owner recover the remainder with
//! `sweep_unclaimed` after the claim window has closed.
//!
//! The token ledger that actually moves balances is an external
//! collaborator. Each operation that needs it is split in two: the first
//! half checks the request, commits the campaign's own state and tells the
//! caller which transfer is owed; the second half (`..._settle`) takes the
//! ledger's answer and finishes the operation. `claim` records the
//! recipient as claimed before the payout is requested, so a transfer that
//! re-enters the campaign already sees the claimed mark and cannot pay the
//! same identity twice.

use vstd::prelude::*;
use crate::hashing::{bytes_eq, copy_bytes, leaf_hash, leaf_of};
use crate::ledger::ClaimLedger;
use crate::merkle::{proof_checks, verify_proof, views_of};

verus! {

/// Errors that can occur when funding, claiming, or sweeping. Each is
/// terminal for the operation that reports it.
#[derive(Debug, Clone, Copy, PartialEq, Eq, Structural)]
pub enum Error {
    /// Token transfer failed.
    TransferFailed,
    /// Merkle proof did not validate against the stored root.
    InvalidProof,
    /// Recipient has already claimed their allocation.
    AlreadyClaimed,
    /// Cannot fund with an amount of zero.
    AmountCannotBeZero,
    /// Caller is not the owner.
    Unauthorized,
    /// Claiming is no longer allowed (campaign ended).
    ClaimPeriodOver,
    /// Claim period is still active (sweep not yet allowed).
    ClaimPeriodActive,
}

/// Notification owed exactly once per successful claim, handed out after
/// the claim's state change and payout have committed.
#[derive(Debug)]
pub struct Claimed {
    /// The identity of the recipient.
    pub recipient: Vec<u8>,
    /// Amount of tokens claimed.
    pub value: u128,
}

/// One Merkle-rooted airdrop campaign.
pub struct MerkleAirdrop {
    /// Identifier of the token the campaign distributes.
    pub asset_id: u32,
    /// Merkle root committing to `(identity, amount)` pairs; immutable
    /// after construction.
    pub root: Vec<u8>,
    /// Tracks which identities have already claimed.
    pub claimed: ClaimLedger,
    /// Identity authorized for administrative actions.
    pub owner: Vec<u8>,
    /// Timestamp after which claims are rejected and sweeping opens; with
    /// none configured the campaign never ends.
    pub campaign_end_time: Option<u64>,
    /// Total amount pulled in by successful funding operations.
    pub total_funded: u128,
}

impl MerkleAirdrop {
    /// The root is a 32-byte hash and the ledger holds no duplicates.
    pub open spec fn wf(self) -> bool {
        self.root@.len() == 32 && self.claimed.wf()
    }

    /// Whether the claim window has closed by `now`.
    pub open spec fn ended(self, now: u64) -> bool {
        match self.campaign_end_time {
            Some(end) => now > end,
            None => false,
        }
    }

    /// Create a new campaign: fix the root and the claim window, record the
    /// owner. A deadline, if configured, must lie strictly in the future;
    /// construction with a deadline already reached is rejected outright.
    /// The campaign starts unfunded with nothing claimed.
    pub fn new(
        asset_id: u32,
        root: Vec<u8>,
        owner: Vec<u8>,
        campaign_end_time: Option<u64>,
        now: u64,
    ) -> (campaign: Self)
        requires
            root@.len() == 32,
            campaign_end_time matches Some(end) ==> end > now,
        ensures
            campaign.asset_id == asset_id,
            campaign.root@ == root@,
            campaign.owner@ == owner@,
            campaign.campaign_end_time == campaign_end_time,
            campaign.claimed@ == Set::<Seq<u8>>::empty(),
            campaign.total_funded == 0,
            campaign.wf(),
    {
        MerkleAirdrop {
            asset_id,
            root,
            claimed: ClaimLedger::new(),
            owner,
            campaign_end_time,
            total_funded: 0,
        }
    }

    /// Check a funding request. A zero amount is rejected; any other amount
    /// is accepted, and the caller then owes the ledger a pull transfer of
    /// `amount` from the funder to the campaign, settled by `fund_settle`.
    pub fn fund(&self, amount: u128) -> (outcome: Result<(), Error>)
        ensures
            amount == 0 ==> outcome == Err::<(), Error>(Error::AmountCannotBeZero),
            amount != 0 ==> outcome == Ok::<(), Error>(()),
    {
        if amount == 0 {
            Err(Error::AmountCannotBeZero)
        } else {
            Ok(())
        }
    }

    /// Settle a funding request with the ledger's answer. On a successful
    /// transfer the held balance grows by exactly `amount`; on a rejected
    /// one nothing changes and the operation fails.
    pub fn fund_settle(&mut self, amount: u128, transferred: bool) -> (outcome: Result<(), Error>)
        requires
            transferred ==> old(self).total_funded + amount <= u128::MAX,
        ensures
            transferred ==> outcome == Ok::<(), Error>(())
                && final(self).total_funded == old(self).total_funded + amount,
            !transferred ==> outcome == Err::<(), Error>(Error::TransferFailed)
                && *final(self) == *old(self),
            final(self).asset_id == old(self).asset_id,
            final(self).root == old(self).root,
            final(self).claimed == old(self).claimed,
            final(self).owner == old(self).owner,
            final(self).campaign_end_time == old(self).campaign_end_time,
    {
        if transferred {
            self.total_funded = self.total_funded + amount;
            Ok(())
        } else {
            Err(Error::TransferFailed)
        }
    }

    /// The outcome `claim` owes for a state and a set of inputs: the first
    /// failing check decides, in the order deadline, double claim, proof.
    pub open spec fn claim_outcome(
        self,
        recipient: Seq<u8>,
        value: u128,
        siblings: Seq<Seq<u8>>,
        index: u64,
        now: u64,
    ) -> Result<(), Error> {
        if self.ended(now) {
            Err(Error::ClaimPeriodOver)
        } else if self.claimed@.contains(recipient) {
            Err(Error::AlreadyClaimed)
        } else if !proof_checks(leaf_of(recipient, value), siblings, index as nat, self.root@) {
            Err(Error::InvalidProof)
        } else {
            Ok(())
        }
    }

    /// Claim tokens: reject a closed window, a repeated claim and an
    /// invalid proof; otherwise record the recipient as claimed. On success
    /// the caller then owes the ledger a transfer of `value` to the
    /// recipient, settled by `claim_settle`; the mark is set strictly
    /// before that transfer is requested.
    pub fn claim(
        &mut self,
        recipient: &Vec<u8>,
        value: u128,
        siblings: &Vec<Vec<u8>>,
        index: u64,
        now: u64,
    ) -> (outcome: Result<(), Error>)
        requires
            old(self).wf(),
        ensures
            outcome == old(self).claim_outcome(recipient@, value, views_of(siblings@), index, now),
            outcome is Ok ==> final(self).claimed@ == old(self).claimed@.insert(recipient@),
            outcome is Err ==> *final(self) == *old(self),
            final(self).asset_id == old(self).asset_id,
            final(self).root == old(self).root,
            final(self).owner == old(self).owner,
            final(self).campaign_end_time == old(self).campaign_end_time,
            final(self).total_funded == old(self).total_funded,
            final(self).wf(),
    {
        if let Err(error) = self.check_campaign_ongoing(now) {
            return Err(error);
        }
        if self.claimed.is_claimed(recipient) {
            return Err(Error::AlreadyClaimed);
        }
        let leaf = leaf_hash(recipient, value);
        let verified = verify_proof(&leaf, siblings, index, &self.root);
        if !verified {
            return Err(Error::InvalidProof);
        }
        self.claimed.mark_claimed(recipient);
        Ok(())
    }

    /// Settle a successful claim's payout with the ledger's answer. On a
    /// successful transfer the notification owed for the recipient is
    /// handed out; on a rejected one the operation fails, and the claimed
    /// mark set before the transfer stays: the allocation is forfeited, as
    /// this design inherits from its on-chain origin.
    pub fn claim_settle(
        &self,
        recipient: Vec<u8>,
        value: u128,
        transferred: bool,
    ) -> (outcome: Result<Claimed, Error>)
        requires
            self.claimed@.contains(recipient@),
        ensures
            transferred ==> (outcome matches Ok(notice)
                && notice.recipient@ == recipient@
                && notice.value == value),
            !transferred ==> outcome == Err::<Claimed, Error>(Error::TransferFailed),
    {
        if transferred {
            Ok(Claimed { recipient, value })
        } else {
            Err(Error::TransferFailed)
        }
    }

    /// The outcome `sweep_unclaimed` owes: only the owner may sweep, and
    /// only once the claim window has closed.
    pub open spec fn sweep_outcome(self, caller: Seq<u8>, now: u64) -> Result<(), Error> {
        if caller != self.owner@ {
            Err(Error::Unauthorized)
        } else if !self.ended(now) {
            Err(Error::ClaimPeriodActive)
        } else {
            Ok(())
        }
    }

    /// Check a sweep request. On success the caller then owes the ledger a
    /// transfer of the campaign's entire remaining balance to the owner,
    /// settled by `sweep_settle`.
    pub fn sweep_unclaimed(&self, caller: &Vec<u8>, now: u64) -> (outcome: Result<(), Error>)
        ensures
            outcome == self.sweep_outcome(caller@, now),
    {
        if let Err(error) = self.check_owner(caller) {
            return Err(error);
        }
        if let Err(error) = self.check_campaign_ended(now) {
            return Err(error);
        }
        Ok(())
    }

    /// Settle a sweep's transfer with the ledger's answer.
    pub fn sweep_settle(&self, transferred: bool) -> (outcome: Result<(), Error>)
        ensures
            transferred ==> outcome == Ok::<(), Error>(()),
            !transferred ==> outcome == Err::<(), Error>(Error::TransferFailed),
    {
        if transferred {
            Ok(())
        } else {
            Err(Error::TransferFailed)
        }
    }

    /// Get the token asset identifier.
    pub fn asset_id(&self) -> (id: u32)
        ensures
            id == self.asset_id,
    {
        self.asset_id
    }

    /// Get the Merkle root.
    pub fn root(&self) -> (root: Vec<u8>)
        ensures
            root@ == self.root@,
    {
        copy_bytes(&self.root)
    }

    /// Check if a recipient has already claimed.
    pub fn is_claimed(&self, recipient: &Vec<u8>) -> (claimed: bool)
        ensures
            claimed == self.claimed@.contains(recipient@),
    {
        self.claimed.is_claimed(recipient)
    }

    /// Internal: ensure caller is owner.
    fn check_owner(&self, caller: &Vec<u8>) -> (outcome: Result<(), Error>)
        ensures
            caller@ == self.owner@ ==> outcome == Ok::<(), Error>(()),
            caller@ != self.owner@ ==> outcome == Err::<(), Error>(Error::Unauthorized),
    {
        if !bytes_eq(caller, &self.owner) {
            return Err(Error::Unauthorized);
        }
        Ok(())
    }

    /// Internal: ensure campaign has not yet ended.
    fn check_campaign_ongoing(&self, now: u64) -> (outcome: Result<(), Error>)
        ensures
            !self.ended(now) ==> outcome == Ok::<(), Error>(()),
            self.ended(now) ==> outcome == Err::<(), Error>(Error::ClaimPeriodOver),
    {
        match self.campaign_end_time {
            Some(end) => {
                if now > end {
                    Err(Error::ClaimPeriodOver)
                } else {
                    Ok(())
                }
            },
            None => Ok(()),
        }
    }

    /// Internal: ensure campaign has ended.
    fn check_campaign_ended(&self, now: u64) -> (outcome: Result<(), Error>)
        ensures
            self.ended(now) ==> outcome == Ok::<(), Error>(()),
            !self.ended(now) ==> outcome == Err::<(), Error>(Error::ClaimPeriodActive),
    {
        match self.campaign_end_time {
            Some(end) => {
                if now <= end {
                    Err(Error::ClaimPeriodActive)
                } else {
                    Ok(())
                }
            },
            None => Err(Error::ClaimPeriodActive),
        }
    }
}

/// An identity already recorded as claimed can never claim again: within
/// the claim window every further attempt fails with `AlreadyClaimed`,
/// whatever value, proof or index it carries.
pub proof fn lemma_claim_at_most_once(
    campaign: MerkleAirdrop,
    recipient: Seq<u8>,
    value: u128,
    siblings: Seq<Seq<u8>>,
    index: u64,
    now: u64,
)
    requires
        campaign.claimed@.contains(recipient),
        !campaign.ended(now),
    ensures
        campaign.claim_outcome(recipient, value, siblings, index, now)
            == Err::<(), Error>(Error::AlreadyClaimed),
{
}

/// After a successful claim, a second attempt by the same recipient within
/// the claim window fails with `AlreadyClaimed`, with the same or any
/// other proof.
pub proof fn lemma_second_claim_rejected(
    before: MerkleAirdrop,
    after: MerkleAirdrop,
    recipient: Seq<u8>,
    value: u128,
    siblings: Seq<Seq<u8>>,
    index: u64,
    now: u64,
    second_value: u128,
    second_siblings: Seq<Seq<u8>>,
    second_index: u64,
    second_now: u64,
)
    requires
        before.claim_outcome(recipient, value, siblings, index, now) == Ok::<(), Error>(()),
        after.claimed@ == before.claimed@.insert(recipient),
        !after.ended(second_now),
    ensures
        after.claim_outcome(recipient, second_value, second_siblings, second_index, second_now)
            == Err::<(), Error>(Error::AlreadyClaimed),
{
}

/// Once the claim window has closed, claim fails with `ClaimPeriodOver`
/// even when the proof is fully valid.
pub proof fn lemma_claim_rejected_after_deadline(
    campaign: MerkleAirdrop,
    recipient: Seq<u8>,
    value: u128,
    siblings: Seq<Seq<u8>>,
    index: u64,
    now: u64,
)
    requires
        campaign.ended(now),
    ensures
        campaign.claim_outcome(recipient, value, siblings, index, now)
            == Err::<(), Error>(Error::ClaimPeriodOver),
{
}

} // verus!
