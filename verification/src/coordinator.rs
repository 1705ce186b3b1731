//! The settlement coordinator.
//!
//! Phase 1 (submission shard): validate a claim and emit exactly one
//! authenticated settlement message, or abort with a reason and no state.
//! Phase 2 (treasury shard): on delivery of a settlement message, enforce the
//! dedup ledger and commit the payment; the dedup insertion and the transfer
//! commit together or not at all.

use vstd::prelude::*;

use crate::bytes::copy_bytes;
use crate::crypto::authorize_claim;
use crate::crypto::claim_hash_spec;
use crate::crypto::recovered_signer;
use crate::ledger::DedupLedger;
use crate::types::Account;
use crate::types::AirDropClaim;
use crate::types::AirDropId;
use crate::types::ApprovedAirDrop;
use crate::types::ClaimError;
use crate::types::OracleVerdict;
use crate::types::Parameters;
use crate::types::SettlementError;
use crate::types::AMOUNT_ONE;
use crate::types::APP_ID_LEN;
use crate::types::CHAIN_ID_LEN;

verus! {

/// A settlement message queued for the treasury shard, together with the
/// envelope the channel authenticates: the sender marker and the shard the
/// message is addressed to.
pub struct OutgoingMessage {
    /// Marks the message as coming from this application's own deployment;
    /// the treasury shard trusts it without re-verifying the signature.
    pub authenticated: bool,
    /// Shard the message is addressed to: the application's creator shard,
    /// which holds the treasury.
    pub destination_chain: Vec<u8>,
    /// The approved claim itself.
    pub message: ApprovedAirDrop,
}

/// The payout-amount policy: every approved claim pays one whole token.
pub fn airdrop_amount(_claim: &AirDropClaim) -> (r: u128)
    ensures
        r == AMOUNT_ONE,
{
    AMOUNT_ONE
}

/// Applies the oracle's verdict to a claim: only a definitive positive
/// answer lets it pass; a definitive negative answer and an oracle failure
/// abort it, each under its own error kind, so observers can tell them apart.
pub fn assert_eligibility(verdict: OracleVerdict) -> (r: Result<(), ClaimError>)
    ensures
        verdict == OracleVerdict::Eligible ==> r == Ok::<(), ClaimError>(()),
        verdict == OracleVerdict::Ineligible ==> r == Err::<(), ClaimError>(ClaimError::Ineligible),
        verdict == OracleVerdict::Failed ==> r == Err::<(), ClaimError>(ClaimError::OracleError),
{
    match verdict {
        OracleVerdict::Eligible => Ok(()),
        OracleVerdict::Ineligible => Err(ClaimError::Ineligible),
        OracleVerdict::Failed => Err(ClaimError::OracleError),
    }
}

/// Phase 1, on the shard receiving the claim: verify the signature, apply
/// the oracle's verdict, and either produce the one authenticated settlement
/// message or abort with the reason, touching no state either way.
///
/// For every claim with a recoverable signature and an eligible verdict,
/// exactly one message is produced, carrying the recovered identity, the
/// configured payout and the claim's own destination; an unrecoverable
/// signature, an ineligible verdict or a failed oracle produce no message.
pub fn submit_claim(
    app_id: &Vec<u8>,
    creator_chain: &Vec<u8>,
    claim: &AirDropClaim,
    verdict: OracleVerdict,
) -> (r: Result<OutgoingMessage, ClaimError>)
    requires
        claim.well_formed(),
        app_id@.len() == APP_ID_LEN,
        creator_chain@.len() == CHAIN_ID_LEN,
    ensures
        ({
            let signer = recovered_signer(
                claim.signature@,
                claim_hash_spec(app_id@, claim.destination.chain_id@, claim.destination.owner@),
            );
            &&& signer is None ==> r == Err::<OutgoingMessage, ClaimError>(
                ClaimError::InvalidSignature,
            )
            &&& signer is Some && verdict == OracleVerdict::Ineligible ==> r == Err::<
                OutgoingMessage,
                ClaimError,
            >(ClaimError::Ineligible)
            &&& signer is Some && verdict == OracleVerdict::Failed ==> r == Err::<
                OutgoingMessage,
                ClaimError,
            >(ClaimError::OracleError)
            &&& signer matches Some(address) ==> verdict == OracleVerdict::Eligible ==> (r matches Ok(
                out,
            ) && out.authenticated == true && out.destination_chain@ == creator_chain@
                && out.message.id.bytes@ == address && out.message.amount == AMOUNT_ONE
                && out.message.destination.same_as(&claim.destination)
                && out.message.well_formed())
        }),
{
    let claimer = match authorize_claim(app_id, claim) {
        Ok(claimer) => claimer,
        Err(reason) => {
            return Err(reason);
        },
    };
    match assert_eligibility(verdict) {
        Ok(()) => {},
        Err(reason) => {
            return Err(reason);
        },
    }
    let amount = airdrop_amount(claim);
    Ok(
        OutgoingMessage {
            authenticated: true,
            destination_chain: copy_bytes(creator_chain),
            message: ApprovedAirDrop {
                id: claimer,
                amount,
                destination: Account {
                    chain_id: copy_bytes(&claim.destination.chain_id),
                    owner: copy_bytes(&claim.destination.owner),
                },
            },
        },
    )
}

/// Instruction handed to the external transfer capability: move `amount`
/// from the application's treasury account to `destination`.
pub struct TransferOrder {
    /// Identity of the fungible-token application that executes the transfer.
    pub token_id: Vec<u8>,
    /// Owner of the source account: the application's own identity.
    pub source_owner: Vec<u8>,
    /// Amount to move.
    pub amount: u128,
    /// Account credited by the transfer.
    pub destination: Account,
}

/// One settlement attempt as the treasury shard sees it: the identity the
/// message carries, and whether the transfer capability succeeded for it.
pub struct Delivery {
    /// Identity carried by the delivered message.
    pub id: Seq<u8>,
    /// Whether the external transfer succeeded.
    pub transfer_ok: bool,
}

/// The treasury-side transition: outcome and new ledger for one delivery.
///
/// A recorded identity fails before any transfer is attempted; a failed
/// transfer leaves the ledger untouched, rolling the insertion back; only a
/// successful transfer commits the identity.
pub open spec fn settle_step(ledger: Set<Seq<u8>>, id: Seq<u8>, transfer_ok: bool) -> (Result<
    (),
    SettlementError,
>, Set<Seq<u8>>) {
    if ledger.contains(id) {
        (Err(SettlementError::AlreadyPaid), ledger)
    } else if !transfer_ok {
        (Err(SettlementError::TransferFailed), ledger)
    } else {
        (Ok(()), ledger.insert(id))
    }
}

/// The ledger after a sequence of deliveries, first to last.
pub open spec fn run_ledger(ledger: Set<Seq<u8>>, events: Seq<Delivery>) -> Set<Seq<u8>>
    decreases events.len(),
{
    if events.len() == 0 {
        ledger
    } else {
        run_ledger(settle_step(ledger, events[0].id, events[0].transfer_ok).1, events.drop_first())
    }
}

/// How many deliveries of a sequence commit a payment.
pub open spec fn count_paid(ledger: Set<Seq<u8>>, events: Seq<Delivery>) -> nat
    decreases events.len(),
{
    if events.len() == 0 {
        0
    } else {
        let step = settle_step(ledger, events[0].id, events[0].transfer_ok);
        (if step.0 == Ok::<(), SettlementError>(()) {
            1nat
        } else {
            0nat
        }) + count_paid(step.1, events.drop_first())
    }
}

/// First half of a delivery: enforce the dedup ledger and produce the
/// transfer instruction.  Mutates nothing; fails with `AlreadyPaid`, before
/// any transfer is attempted, exactly when the identity is already recorded.
pub fn begin_settlement(
    ledger: &DedupLedger,
    parameters: &Parameters,
    treasury_owner: &Vec<u8>,
    message: &ApprovedAirDrop,
) -> (r: Result<TransferOrder, SettlementError>)
    ensures
        ledger@.contains(message.id.bytes@) <==> r == Err::<TransferOrder, SettlementError>(
            SettlementError::AlreadyPaid,
        ),
        !ledger@.contains(message.id.bytes@) ==> r is Ok,
        r matches Ok(order) ==> order.token_id@ == parameters.token_id@
            && order.source_owner@ == treasury_owner@ && order.amount == message.amount
            && order.destination.same_as(&message.destination),
{
    if ledger.contains(&message.id) {
        return Err(SettlementError::AlreadyPaid);
    }
    Ok(TransferOrder {
        token_id: copy_bytes(&parameters.token_id),
        source_owner: copy_bytes(treasury_owner),
        amount: message.amount,
        destination: Account {
            chain_id: copy_bytes(&message.destination.chain_id),
            owner: copy_bytes(&message.destination.owner),
        },
    })
}

/// Second half of a delivery: commit or roll back, given the transfer's
/// outcome.  The identity is recorded exactly when the transfer succeeded,
/// so the insertion and the payment stand or fall together.
pub fn commit_settlement(
    ledger: &mut DedupLedger,
    message: &ApprovedAirDrop,
    transfer_ok: bool,
) -> (r: Result<(), SettlementError>)
    requires
        old(ledger).well_formed(),
        message.well_formed(),
        !old(ledger)@.contains(message.id.bytes@),
    ensures
        final(ledger).well_formed(),
        transfer_ok ==> r == Ok::<(), SettlementError>(()) && final(ledger)@ == old(
            ledger,
        )@.insert(message.id.bytes@),
        !transfer_ok ==> r == Err::<(), SettlementError>(SettlementError::TransferFailed)
            && final(ledger)@ == old(ledger)@,
{
    if !transfer_ok {
        return Err(SettlementError::TransferFailed);
    }
    let id = AirDropId { bytes: copy_bytes(&message.id.bytes) };
    let inserted = ledger.insert(id);
    assert(inserted is Ok);
    Ok(())
}

/// One whole treasury-side delivery, as a transition of the dedup ledger:
/// outcome and new ledger are exactly `settle_step` on the message's
/// identity and the transfer's outcome.
pub fn settle(ledger: &mut DedupLedger, message: &ApprovedAirDrop, transfer_ok: bool) -> (r: Result<
    (),
    SettlementError,
>)
    requires
        old(ledger).well_formed(),
        message.well_formed(),
    ensures
        final(ledger).well_formed(),
        r == settle_step(old(ledger)@, message.id.bytes@, transfer_ok).0,
        final(ledger)@ == settle_step(old(ledger)@, message.id.bytes@, transfer_ok).1,
{
    if ledger.contains(&message.id) {
        return Err(SettlementError::AlreadyPaid);
    }
    commit_settlement(ledger, message, transfer_ok)
}

/// Once settled, an identity stays settled through any later deliveries.
pub proof fn lemma_ledger_monotonic(ledger: Set<Seq<u8>>, events: Seq<Delivery>, id: Seq<u8>)
    requires
        ledger.contains(id),
    ensures
        run_ledger(ledger, events).contains(id),
    decreases events.len(),
{
    if events.len() > 0 {
        let next = settle_step(ledger, events[0].id, events[0].transfer_ok).1;
        assert(next.contains(id));
        lemma_ledger_monotonic(next, events.drop_first(), id);
    }
}

/// Once a settlement for an identity succeeds, every subsequent settlement
/// attempt for the same identity, however many other deliveries intervene,
/// fails with `AlreadyPaid`, leaves the ledger untouched, and commits no
/// payment.
pub proof fn lemma_exactly_once(
    ledger: Set<Seq<u8>>,
    id: Seq<u8>,
    first_ok: bool,
    later: Seq<Delivery>,
    retry_ok: bool,
)
    requires
        settle_step(ledger, id, first_ok).0 == Ok::<(), SettlementError>(()),
    ensures
        ({
            let after_first = settle_step(ledger, id, first_ok).1;
            let after_later = run_ledger(after_first, later);
            settle_step(after_later, id, retry_ok) == (
                Err::<(), SettlementError>(SettlementError::AlreadyPaid),
                after_later,
            )
        }),
{
    let after_first = settle_step(ledger, id, first_ok).1;
    lemma_ledger_monotonic(after_first, later, id);
}

/// A run of deliveries that all carry one identity commits at most one
/// payment, and none at all if the identity is already settled; redelivering
/// an identical, already-settled message any number of times therefore
/// yields exactly one payment in total.
pub proof fn lemma_redelivery_pays_at_most_once(
    ledger: Set<Seq<u8>>,
    events: Seq<Delivery>,
    id: Seq<u8>,
)
    requires
        forall|i: int| 0 <= i < events.len() ==> (#[trigger] events[i]).id == id,
    ensures
        count_paid(ledger, events) <= 1,
        ledger.contains(id) ==> count_paid(ledger, events) == 0 && run_ledger(ledger, events)
            == ledger,
        events.len() > 0 && !ledger.contains(id) && events[0].transfer_ok ==> count_paid(
            ledger,
            events,
        ) == 1,
    decreases events.len(),
{
    if events.len() > 0 {
        let step = settle_step(ledger, events[0].id, events[0].transfer_ok);
        assert(events.drop_first().len() == events.len() - 1);
        assert(forall|i: int|
            0 <= i < events.drop_first().len() ==> (#[trigger] events.drop_first()[i]).id == id);
        lemma_redelivery_pays_at_most_once(step.1, events.drop_first(), id);
        if step.0 == Ok::<(), SettlementError>(()) {
            assert(step.1.contains(id));
        }
    }
}

} // verus!
