//! Claim authorization: the domain-separated claim payload, its digest, and
//! recovery of the claimant identity from a claim's signature.
//!
//! The payload binds the application's own identity, so a signature captured
//! against another deployment cannot be replayed here, and binds the payout
//! destination, so a captured signature cannot be redirected.

use vstd::prelude::*;

use crate::bytes::append_bytes;
use crate::types::Account;
use crate::types::AirDropClaim;
use crate::types::AirDropId;
use crate::types::ClaimError;
use crate::types::APP_ID_LEN;
use crate::types::ID_LEN;

verus! {

/// The Keccak-256 digest of a byte string.
pub uninterp spec fn keccak256_of(bytes: Seq<u8>) -> Seq<u8>;

/// The address recovered from a raw recoverable signature over a 32-byte
/// digest, or `None` if the signature is malformed or recovery fails.
pub uninterp spec fn recovered_signer(signature: Seq<u8>, prehash: Seq<u8>) -> Option<Seq<u8>>;

/// Relies on `alloy_primitives::keccak256`: the Keccak-256 digest, a 32-byte
/// function of the input bytes alone.
#[verifier::external_body]
fn keccak256(bytes: &Vec<u8>) -> (r: Vec<u8>)
    ensures
        r@ == keccak256_of(bytes@),
        r@.len() == 32,
{
    alloy_primitives::keccak256(bytes.as_slice()).to_vec()
}

/// Relies on `alloy_primitives::Signature::from_raw` to parse a 65-byte raw
/// signature and on `Signature::recover_address_from_prehash` to recover the
/// 20-byte signer address; both depend on the signature and digest alone.
#[verifier::external_body]
fn recover_signer(signature: &Vec<u8>, prehash: &Vec<u8>) -> (r: Option<Vec<u8>>)
    requires
        signature@.len() == 65,
        prehash@.len() == 32,
    ensures
        match r {
            Some(address) => recovered_signer(signature@, prehash@) == Some(address@)
                && address@.len() == 20,
            None => recovered_signer(signature@, prehash@) is None,
        },
{
    let parsed = match alloy_primitives::Signature::from_raw(signature.as_slice()) {
        Ok(parsed) => parsed,
        Err(_) => return None,
    };
    let digest = alloy_primitives::B256::from_slice(prehash.as_slice());
    match parsed.recover_address_from_prehash(&digest) {
        Ok(address) => Some(address.as_slice().to_vec()),
        Err(_) => None,
    }
}

/// The fixed prefix that domain-separates claim payloads from any other
/// signed data: the ASCII bytes of `airdrop-claim/v1`.
pub open spec fn domain_tag_spec() -> Seq<u8> {
    seq![97u8, 105, 114, 100, 114, 111, 112, 45, 99, 108, 97, 105, 109, 47, 118, 49]
}

/// Builds the domain-separation prefix of every claim payload.
fn domain_tag() -> (r: Vec<u8>)
    ensures
        r@ == domain_tag_spec(),
{
    let mut tag: Vec<u8> = Vec::new();
    tag.push(97);
    tag.push(105);
    tag.push(114);
    tag.push(100);
    tag.push(114);
    tag.push(111);
    tag.push(112);
    tag.push(45);
    tag.push(99);
    tag.push(108);
    tag.push(97);
    tag.push(105);
    tag.push(109);
    tag.push(47);
    tag.push(118);
    tag.push(49);
    assert(tag@ =~= domain_tag_spec());
    tag
}

/// The signed payload: domain tag, then the application identity, then the
/// destination's shard and owner identifiers.
pub open spec fn claim_payload_spec(app_id: Seq<u8>, chain_id: Seq<u8>, owner: Seq<u8>) -> Seq<
    u8,
> {
    domain_tag_spec() + app_id + chain_id + owner
}

/// The digest a claimant signs: the Keccak-256 hash of the claim payload.
pub open spec fn claim_hash_spec(app_id: Seq<u8>, chain_id: Seq<u8>, owner: Seq<u8>) -> Seq<u8> {
    keccak256_of(claim_payload_spec(app_id, chain_id, owner))
}

/// Builds the byte string a claimant signs for this application and
/// destination.
pub fn claim_payload(app_id: &Vec<u8>, destination: &Account) -> (r: Vec<u8>)
    ensures
        r@ == claim_payload_spec(app_id@, destination.chain_id@, destination.owner@),
{
    let mut payload = domain_tag();
    append_bytes(&mut payload, app_id);
    append_bytes(&mut payload, &destination.chain_id);
    append_bytes(&mut payload, &destination.owner);
    assert(payload@ =~= claim_payload_spec(app_id@, destination.chain_id@, destination.owner@));
    payload
}

/// Computes the digest a claimant signs for this application and destination.
pub fn claim_hash(app_id: &Vec<u8>, destination: &Account) -> (r: Vec<u8>)
    ensures
        r@ == claim_hash_spec(app_id@, destination.chain_id@, destination.owner@),
        r@.len() == 32,
{
    let payload = claim_payload(app_id, destination);
    keccak256(&payload)
}

/// Recovers the claimant identity from a claim, or reports
/// `InvalidSignature` exactly when no signer can be recovered from the
/// claim's signature over this application's payload digest.
pub fn authorize_claim(app_id: &Vec<u8>, claim: &AirDropClaim) -> (r: Result<AirDropId, ClaimError>)
    requires
        claim.well_formed(),
        app_id@.len() == APP_ID_LEN,
    ensures
        match recovered_signer(
            claim.signature@,
            claim_hash_spec(app_id@, claim.destination.chain_id@, claim.destination.owner@),
        ) {
            Some(address) => r matches Ok(id) && id.bytes@ == address && id.well_formed(),
            None => r == Err::<AirDropId, ClaimError>(ClaimError::InvalidSignature),
        },
{
    let digest = claim_hash(app_id, &claim.destination);
    match recover_signer(&claim.signature, &digest) {
        Some(address) => Ok(AirDropId { bytes: address }),
        None => Err(ClaimError::InvalidSignature),
    }
}

/// Derives the claimant identity belonging to an uncompressed 65-byte
/// public key: the last 20 bytes of the Keccak-256 digest of its coordinate
/// bytes.  Recovery returns exactly this identity for the key that signed.
pub fn address_of_public_key(public_key: &Vec<u8>) -> (r: Vec<u8>)
    requires
        public_key@.len() == 65,
    ensures
        r@ == keccak256_of(public_key@.subrange(1, 65)).subrange(12, 32),
        r@.len() == ID_LEN,
{
    let mut coordinates: Vec<u8> = Vec::new();
    let mut i: usize = 1;
    while i < 65
        invariant
            1 <= i <= 65,
            public_key@.len() == 65,
            coordinates@ == public_key@.subrange(1, i as int),
        decreases 65 - i,
    {
        coordinates.push(public_key[i]);
        assert(coordinates@ =~= public_key@.subrange(1, i + 1 as int));
        i = i + 1;
    }
    let digest = keccak256(&coordinates);
    let mut address: Vec<u8> = Vec::new();
    let mut j: usize = 12;
    while j < 32
        invariant
            12 <= j <= 32,
            digest@ == keccak256_of(public_key@.subrange(1, 65)),
            digest@.len() == 32,
            address@ == digest@.subrange(12, j as int),
        decreases 32 - j,
    {
        address.push(digest[j]);
        assert(address@ =~= digest@.subrange(12, j + 1 as int));
        j = j + 1;
    }
    address
}

} // verus!
