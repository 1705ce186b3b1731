//! Data model: claimant identities, payout destinations, claims, settlement
//! messages, per-deployment parameters, and the error kinds of both phases.

use vstd::prelude::*;

verus! {

/// Number of bytes in a claimant identity (a recovered signer address).
pub const ID_LEN: usize = 20;

/// Number of bytes in a shard (chain) identifier.
pub const CHAIN_ID_LEN: usize = 32;

/// Number of bytes in an account owner identifier.
pub const OWNER_LEN: usize = 32;

/// Number of bytes in an application identity.
pub const APP_ID_LEN: usize = 32;

/// Number of bytes in a raw recoverable signature: `r`, `s`, and a parity byte.
pub const SIGNATURE_LEN: usize = 65;

/// One whole token in the fixed-point unsigned representation used for amounts.
pub const AMOUNT_ONE: u128 = 1_000_000_000_000_000_000;

/// A claimant identity: the address recovered from a claim's signature.
pub struct AirDropId {
    /// The raw address bytes; always `ID_LEN` bytes long.
    pub bytes: Vec<u8>,
}

impl AirDropId {
    /// A claimant identity holds exactly `ID_LEN` bytes.
    pub open spec fn well_formed(&self) -> bool {
        self.bytes@.len() == ID_LEN
    }
}

/// A payout destination: an account owner on some shard.
pub struct Account {
    /// Identifier of the shard holding the destination account.
    pub chain_id: Vec<u8>,
    /// Identifier of the account owner on that shard.
    pub owner: Vec<u8>,
}

impl Account {
    /// Both identifiers have their fixed widths.
    pub open spec fn well_formed(&self) -> bool {
        self.chain_id@.len() == CHAIN_ID_LEN && self.owner@.len() == OWNER_LEN
    }

    /// Two destinations are the same account exactly when both fields agree.
    pub open spec fn same_as(&self, other: &Account) -> bool {
        self.chain_id@ == other.chain_id@ && self.owner@ == other.owner@
    }
}

/// A user-submitted claim: proof of address control plus a payout target and
/// the opaque bearer credential forwarded to the eligibility oracle.
pub struct AirDropClaim {
    /// Raw recoverable signature over the domain-separated claim payload.
    pub signature: Vec<u8>,
    /// Account that receives the payout.
    pub destination: Account,
    /// Opaque credential carried to the oracle for authorization.
    pub api_token: Vec<u8>,
}

impl AirDropClaim {
    /// The signature has its fixed width and the destination is well formed.
    pub open spec fn well_formed(&self) -> bool {
        self.signature@.len() == SIGNATURE_LEN && self.destination.well_formed()
    }
}

/// The one datum crossing shard boundaries: an approved claim, addressed to
/// the treasury shard for payment.
pub struct ApprovedAirDrop {
    /// Identity recovered from the claim's signature; the dedup key.
    pub id: AirDropId,
    /// Payout amount fixed at submission time.
    pub amount: u128,
    /// Account that receives the payout.
    pub destination: Account,
}

impl ApprovedAirDrop {
    /// Identity and destination are well formed.
    pub open spec fn well_formed(&self) -> bool {
        self.id.well_formed() && self.destination.well_formed()
    }
}

/// Immutable per-deployment configuration.
pub struct Parameters {
    /// Identity of the fungible-token application paying the airdrop.
    pub token_id: Vec<u8>,
    /// Block height of the balance snapshot the oracle checks against.
    pub snapshot_block: u64,
    /// Minimum snapshot balance required for eligibility.
    pub minimum_balance: u128,
}

impl Parameters {
    /// The token identity has its fixed width.
    pub open spec fn well_formed(&self) -> bool {
        self.token_id@.len() == APP_ID_LEN
    }
}

/// Why a claim submission aborted; no message is emitted in any of these.
#[derive(Clone, Copy, Debug, PartialEq, Eq, Structural)]
pub enum ClaimError {
    /// The signature was malformed or no signer could be recovered.
    InvalidSignature,
    /// The oracle answered definitively that the claimant is not eligible.
    Ineligible,
    /// The oracle could not be reached or answered in an unexpected shape.
    OracleError,
}

/// Why a treasury-side settlement aborted.
#[derive(Clone, Copy, Debug, PartialEq, Eq, Structural)]
pub enum SettlementError {
    /// The identity was already settled; ledger and balance stay untouched.
    AlreadyPaid,
    /// The transfer capability failed; the dedup insertion rolls back with it.
    TransferFailed,
}

/// The oracle's verdict on one claimant, as seen by the coordinator.
#[derive(Clone, Copy, Debug, PartialEq, Eq, Structural)]
pub enum OracleVerdict {
    /// A definitive answer: the claimant is eligible.
    Eligible,
    /// A definitive answer: the claimant is not eligible.
    Ineligible,
    /// Transport failure, non-success status, or an unparseable response.
    Failed,
}

} // verus!
