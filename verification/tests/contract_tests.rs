//! Submission-phase and settlement-phase behaviour of the coordinator.

use airdrop_core::coordinator::begin_settlement;
use airdrop_core::coordinator::settle;
use airdrop_core::coordinator::submit_claim;
use airdrop_core::crypto::address_of_public_key;
use airdrop_core::crypto::claim_hash;
use airdrop_core::ledger::DedupLedger;
use airdrop_core::types::Account;
use airdrop_core::types::AirDropClaim;
use airdrop_core::types::AirDropId;
use airdrop_core::types::ApprovedAirDrop;
use airdrop_core::types::ClaimError;
use airdrop_core::types::OracleVerdict;
use airdrop_core::types::Parameters;
use airdrop_core::types::SettlementError;
use airdrop_core::types::AMOUNT_ONE;
use k256::ecdsa::SigningKey;

fn random_id() -> AirDropId {
    let bytes: [u8; 20] = rand::random();
    AirDropId { bytes: bytes.to_vec() }
}

fn dummy_account(seed: u8) -> Account {
    Account {
        chain_id: vec![seed; 32],
        owner: vec![seed.wrapping_add(1); 32],
    }
}

fn dummy_parameters() -> Parameters {
    Parameters {
        token_id: vec![3; 32],
        snapshot_block: 100,
        minimum_balance: 1,
    }
}

fn sign_claim(signer: &SigningKey, app_id: &Vec<u8>, destination: &Account) -> Vec<u8> {
    let digest = claim_hash(app_id, destination);
    let (signature, recovery_id) = signer.sign_prehash_recoverable(&digest);
    let mut raw = signature.to_vec();
    raw.push(recovery_id.to_byte());
    raw
}

fn signer_address(signer: &SigningKey) -> Vec<u8> {
    let point = signer.verifying_key().to_sec1_point(false);
    let public_key: Vec<u8> = point.as_bytes().to_vec();
    address_of_public_key(&public_key)
}

#[test]
fn accepts_new_claim() {
    let app_id = vec![7u8; 32];
    let creator_chain = vec![9u8; 32];
    let signing_key = SigningKey::from_slice(&[11u8; 32]).unwrap();
    let destination = dummy_account(0);
    let signature = sign_claim(&signing_key, &app_id, &destination);
    let claim = AirDropClaim {
        signature,
        destination: dummy_account(0),
        api_token: b"API token".to_vec(),
    };

    let outgoing = submit_claim(&app_id, &creator_chain, &claim, OracleVerdict::Eligible)
        .expect("valid, eligible claim should produce a message");

    assert!(outgoing.authenticated);
    assert_eq!(outgoing.destination_chain, creator_chain);
    assert_eq!(outgoing.message.id.bytes, signer_address(&signing_key));
    assert_eq!(outgoing.message.amount, AMOUNT_ONE);
    assert_eq!(outgoing.message.destination.chain_id, claim.destination.chain_id);
    assert_eq!(outgoing.message.destination.owner, claim.destination.owner);
}

#[test]
fn signature_binds_destination_and_application() {
    let app_id = vec![7u8; 32];
    let other_app_id = vec![8u8; 32];
    let creator_chain = vec![9u8; 32];
    let signing_key = SigningKey::from_slice(&[14u8; 32]).unwrap();
    let signed_destination = dummy_account(0);
    let signature = sign_claim(&signing_key, &app_id, &signed_destination);
    let signer = signer_address(&signing_key);

    // A captured signature redirected to another destination no longer
    // authorizes the signer's identity.
    let redirected = AirDropClaim {
        signature: signature.clone(),
        destination: dummy_account(5),
        api_token: b"API token".to_vec(),
    };
    match submit_claim(&app_id, &creator_chain, &redirected, OracleVerdict::Eligible) {
        Ok(outgoing) => assert_ne!(outgoing.message.id.bytes, signer),
        Err(reason) => assert_eq!(reason, ClaimError::InvalidSignature),
    }

    // Nor does it against a different deployment of the same code.
    let replayed = AirDropClaim {
        signature,
        destination: dummy_account(0),
        api_token: b"API token".to_vec(),
    };
    match submit_claim(&other_app_id, &creator_chain, &replayed, OracleVerdict::Eligible) {
        Ok(outgoing) => assert_ne!(outgoing.message.id.bytes, signer),
        Err(reason) => assert_eq!(reason, ClaimError::InvalidSignature),
    }
}

#[test]
fn rejects_invalid_signature() {
    let app_id = vec![7u8; 32];
    let creator_chain = vec![9u8; 32];
    let claim = AirDropClaim {
        signature: vec![0u8; 65],
        destination: dummy_account(0),
        api_token: b"API token".to_vec(),
    };

    let result = submit_claim(&app_id, &creator_chain, &claim, OracleVerdict::Eligible);

    assert_eq!(result.err(), Some(ClaimError::InvalidSignature));
}

#[test]
fn rejects_ineligible_claimant() {
    let app_id = vec![7u8; 32];
    let creator_chain = vec![9u8; 32];
    let signing_key = SigningKey::from_slice(&[12u8; 32]).unwrap();
    let destination = dummy_account(0);
    let signature = sign_claim(&signing_key, &app_id, &destination);
    let claim = AirDropClaim {
        signature,
        destination,
        api_token: b"API token".to_vec(),
    };

    let result = submit_claim(&app_id, &creator_chain, &claim, OracleVerdict::Ineligible);

    assert_eq!(result.err(), Some(ClaimError::Ineligible));
}

#[test]
fn reports_oracle_failure() {
    let app_id = vec![7u8; 32];
    let creator_chain = vec![9u8; 32];
    let signing_key = SigningKey::from_slice(&[13u8; 32]).unwrap();
    let destination = dummy_account(0);
    let signature = sign_claim(&signing_key, &app_id, &destination);
    let claim = AirDropClaim {
        signature,
        destination,
        api_token: b"API token".to_vec(),
    };

    let result = submit_claim(&app_id, &creator_chain, &claim, OracleVerdict::Failed);

    assert_eq!(result.err(), Some(ClaimError::OracleError));
}

#[test]
fn pays_accepted_airdrop() {
    let ledger = DedupLedger::new();
    let parameters = dummy_parameters();
    let treasury_owner = vec![7u8; 32];
    let amount = 11 * AMOUNT_ONE;
    let destination = dummy_account(0);
    let airdrop = ApprovedAirDrop {
        id: random_id(),
        amount,
        destination,
    };

    let order = begin_settlement(&ledger, &parameters, &treasury_owner, &airdrop)
        .expect("new airdrop should produce a transfer order");

    assert_eq!(order.token_id, parameters.token_id);
    assert_eq!(order.source_owner, treasury_owner);
    assert_eq!(order.amount, amount);
    assert_eq!(order.destination.chain_id, airdrop.destination.chain_id);
    assert_eq!(order.destination.owner, airdrop.destination.owner);

    let mut ledger = ledger;
    let outcome = settle(&mut ledger, &airdrop, true);
    assert_eq!(outcome, Ok(()));
}

#[test]
fn rejects_repeated_airdrop() {
    let mut ledger = DedupLedger::new();
    let amount = 11 * AMOUNT_ONE;
    let airdrop_id = random_id();
    let first_claim = ApprovedAirDrop {
        id: AirDropId { bytes: airdrop_id.bytes.clone() },
        amount,
        destination: dummy_account(0),
    };
    let second_claim = ApprovedAirDrop {
        id: airdrop_id,
        amount: AMOUNT_ONE,
        destination: dummy_account(1),
    };

    assert_eq!(settle(&mut ledger, &first_claim, true), Ok(()));
    assert_eq!(
        settle(&mut ledger, &second_claim, true),
        Err(SettlementError::AlreadyPaid)
    );
}

#[test]
fn rolls_back_failed_transfer() {
    let mut ledger = DedupLedger::new();
    let airdrop = ApprovedAirDrop {
        id: AirDropId { bytes: vec![42u8; 20] },
        amount: AMOUNT_ONE,
        destination: dummy_account(0),
    };

    assert_eq!(
        settle(&mut ledger, &airdrop, false),
        Err(SettlementError::TransferFailed)
    );
    assert!(!ledger.contains(&airdrop.id));
    assert_eq!(settle(&mut ledger, &airdrop, true), Ok(()));
    assert!(ledger.contains(&airdrop.id));
}
