//! End-to-end settlement scenarios: submission, channel delivery, dedup
//! enforcement and payment, against an in-memory treasury stand-in.

use airdrop_core::channel::MessageChannel;
use airdrop_core::coordinator::begin_settlement;
use airdrop_core::coordinator::commit_settlement;
use airdrop_core::coordinator::submit_claim;
use airdrop_core::coordinator::OutgoingMessage;
use airdrop_core::crypto::claim_hash;
use airdrop_core::ledger::DedupLedger;
use airdrop_core::types::Account;
use airdrop_core::types::AirDropClaim;
use airdrop_core::types::OracleVerdict;
use airdrop_core::types::Parameters;
use airdrop_core::types::SettlementError;
use airdrop_core::types::AMOUNT_ONE;
use k256::ecdsa::SigningKey;

/// In-memory stand-in for the external fungible-token treasury.
struct FakeTreasury {
    balance: u128,
    paid_out: u128,
}

impl FakeTreasury {
    fn transfer(&mut self, amount: u128) -> bool {
        if self.balance >= amount {
            self.balance -= amount;
            self.paid_out += amount;
            true
        } else {
            false
        }
    }
}

fn dummy_account(seed: u8) -> Account {
    Account {
        chain_id: vec![seed; 32],
        owner: vec![seed.wrapping_add(1); 32],
    }
}

fn dummy_parameters() -> Parameters {
    Parameters {
        token_id: vec![3; 32],
        snapshot_block: 250,
        minimum_balance: 25,
    }
}

fn prepare_airdrop_claim(app_id: &Vec<u8>, seed: u8, destination: Account) -> AirDropClaim {
    let signing_key = SigningKey::from_slice(&[seed; 32]).unwrap();
    let digest = claim_hash(app_id, &destination);
    let (signature, recovery_id) = signing_key.sign_prehash_recoverable(&digest);
    let mut raw = signature.to_vec();
    raw.push(recovery_id.to_byte());
    AirDropClaim {
        signature: raw,
        destination,
        api_token: b"API token".to_vec(),
    }
}

/// Runs one delivered message against ledger and treasury, the way the
/// treasury shard does: dedup check, then transfer, then commit or roll back.
fn deliver(
    ledger: &mut DedupLedger,
    treasury: &mut FakeTreasury,
    message: &OutgoingMessage,
) -> Result<(), SettlementError> {
    assert!(message.authenticated);
    let parameters = dummy_parameters();
    let treasury_owner = vec![7u8; 32];
    let order = begin_settlement(ledger, &parameters, &treasury_owner, &message.message)?;
    if ledger.contains(&message.message.id) {
        // `begin_settlement` succeeded, so the identity cannot be recorded.
        unreachable!();
    }
    let transfer_ok = treasury.transfer(order.amount);
    commit_settlement(ledger, &message.message, transfer_ok)
}

#[test]
fn pays_valid_claim() {
    let app_id = vec![7u8; 32];
    let creator_chain = vec![9u8; 32];
    let mut ledger = DedupLedger::new();
    let mut treasury = FakeTreasury { balance: 100 * AMOUNT_ONE, paid_out: 0 };
    let mut channel = MessageChannel::new();

    let claim = prepare_airdrop_claim(&app_id, 21, dummy_account(0));
    let outgoing = submit_claim(&app_id, &creator_chain, &claim, OracleVerdict::Eligible)
        .expect("valid, eligible claim should produce a message");
    channel.send(outgoing);

    let delivered = channel.deliver().expect("one message should be pending");
    assert_eq!(deliver(&mut ledger, &mut treasury, &delivered), Ok(()));
    assert_eq!(treasury.balance, 99 * AMOUNT_ONE);
    assert_eq!(treasury.paid_out, AMOUNT_ONE);
    assert!(ledger.contains(&delivered.message.id));

    // Redelivering the identical message changes nothing: still one payment.
    assert_eq!(
        deliver(&mut ledger, &mut treasury, &delivered),
        Err(SettlementError::AlreadyPaid)
    );
    assert_eq!(
        deliver(&mut ledger, &mut treasury, &delivered),
        Err(SettlementError::AlreadyPaid)
    );
    assert_eq!(treasury.balance, 99 * AMOUNT_ONE);
    assert_eq!(treasury.paid_out, AMOUNT_ONE);
}

#[test]
fn pays_multiple_claims() {
    let app_id = vec![7u8; 32];
    let creator_chain = vec![9u8; 32];
    let mut ledger = DedupLedger::new();
    let mut treasury = FakeTreasury { balance: 10 * AMOUNT_ONE, paid_out: 0 };
    let mut channel = MessageChannel::new();

    let mut expected_ids: Vec<Vec<u8>> = Vec::new();
    for claim_index in 1..=10u8 {
        let claim = prepare_airdrop_claim(&app_id, claim_index, dummy_account(claim_index));
        let outgoing = submit_claim(&app_id, &creator_chain, &claim, OracleVerdict::Eligible)
            .expect("valid, eligible claim should produce a message");
        expected_ids.push(outgoing.message.id.bytes.clone());
        channel.send(outgoing);
    }

    // Messages arrive at the treasury in emission order and all settle.
    let mut settled: usize = 0;
    while let Some(delivered) = channel.deliver() {
        assert_eq!(delivered.message.id.bytes, expected_ids[settled]);
        assert_eq!(deliver(&mut ledger, &mut treasury, &delivered), Ok(()));
        settled += 1;
    }

    assert_eq!(settled, 10);
    assert_eq!(treasury.balance, 0);
    assert_eq!(treasury.paid_out, 10 * AMOUNT_ONE);
}

#[test]
fn rejects_replay_attacks_in_the_same_block() {
    let app_id = vec![7u8; 32];
    let creator_chain = vec![9u8; 32];
    let mut ledger = DedupLedger::new();
    let mut treasury = FakeTreasury { balance: 100 * AMOUNT_ONE, paid_out: 0 };
    let mut channel = MessageChannel::new();

    // The same claim submitted twice in one block emits two messages.
    for _ in 0..2 {
        let claim = prepare_airdrop_claim(&app_id, 21, dummy_account(0));
        let outgoing = submit_claim(&app_id, &creator_chain, &claim, OracleVerdict::Eligible)
            .expect("valid, eligible claim should produce a message");
        channel.send(outgoing);
    }

    let first = channel.deliver().unwrap();
    let second = channel.deliver().unwrap();
    assert_eq!(deliver(&mut ledger, &mut treasury, &first), Ok(()));
    assert_eq!(
        deliver(&mut ledger, &mut treasury, &second),
        Err(SettlementError::AlreadyPaid)
    );
    assert_eq!(treasury.paid_out, AMOUNT_ONE);
}

#[test]
fn rejects_replay_attacks_in_the_same_chain() {
    let app_id = vec![7u8; 32];
    let creator_chain = vec![9u8; 32];
    let mut ledger = DedupLedger::new();
    let mut treasury = FakeTreasury { balance: 100 * AMOUNT_ONE, paid_out: 0 };

    // The same claim is submitted in two successive blocks.
    for round in 0..2 {
        let claim = prepare_airdrop_claim(&app_id, 21, dummy_account(0));
        let outgoing = submit_claim(&app_id, &creator_chain, &claim, OracleVerdict::Eligible)
            .expect("valid, eligible claim should produce a message");
        let outcome = deliver(&mut ledger, &mut treasury, &outgoing);
        if round == 0 {
            assert_eq!(outcome, Ok(()));
        } else {
            assert_eq!(outcome, Err(SettlementError::AlreadyPaid));
        }
    }

    assert_eq!(treasury.paid_out, AMOUNT_ONE);
}

#[test]
fn rejects_replay_attacks_in_different_chains() {
    let app_id = vec![7u8; 32];
    let creator_chain = vec![9u8; 32];
    let mut ledger = DedupLedger::new();
    let mut treasury = FakeTreasury { balance: 100 * AMOUNT_ONE, paid_out: 0 };

    // The claimant submits on one shard; the settlement succeeds.
    let claim = prepare_airdrop_claim(&app_id, 21, dummy_account(0));
    let outgoing = submit_claim(&app_id, &creator_chain, &claim, OracleVerdict::Eligible)
        .expect("valid, eligible claim should produce a message");
    assert_eq!(deliver(&mut ledger, &mut treasury, &outgoing), Ok(()));

    // An attacker replays the captured claim from a different shard.  The
    // recovered identity is the same, so the treasury refuses it.
    let captured = prepare_airdrop_claim(&app_id, 21, dummy_account(0));
    let replayed = submit_claim(&app_id, &creator_chain, &captured, OracleVerdict::Eligible)
        .expect("the captured claim still carries a valid signature");
    assert_eq!(
        deliver(&mut ledger, &mut treasury, &replayed),
        Err(SettlementError::AlreadyPaid)
    );
    assert_eq!(treasury.paid_out, AMOUNT_ONE);
}

#[test]
fn payment_fails_if_airdrop_account_is_empty() {
    let app_id = vec![7u8; 32];
    let creator_chain = vec![9u8; 32];
    let mut ledger = DedupLedger::new();
    let mut treasury = FakeTreasury { balance: AMOUNT_ONE, paid_out: 0 };

    let first_claim = prepare_airdrop_claim(&app_id, 1, dummy_account(1));
    let first = submit_claim(&app_id, &creator_chain, &first_claim, OracleVerdict::Eligible)
        .expect("valid, eligible claim should produce a message");
    assert_eq!(deliver(&mut ledger, &mut treasury, &first), Ok(()));

    let late_claim = prepare_airdrop_claim(&app_id, 2, dummy_account(2));
    let late = submit_claim(&app_id, &creator_chain, &late_claim, OracleVerdict::Eligible)
        .expect("valid, eligible claim should produce a message");
    assert_eq!(
        deliver(&mut ledger, &mut treasury, &late),
        Err(SettlementError::TransferFailed)
    );

    // The failed settlement leaves the late claimant unrecorded, and the
    // treasury paid out exactly once.
    assert!(!ledger.contains(&late.message.id));
    assert_eq!(treasury.paid_out, AMOUNT_ONE);
    assert_eq!(treasury.balance, 0);
}
