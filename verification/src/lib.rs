//! Core of a one-time token payout system.
//!
//! A claimant proves control of an address by signing a domain-separated
//! payload over the application's identity and a payout destination.  The
//! submission shard verifies the signature, consults an external eligibility
//! oracle, and emits exactly one authenticated settlement message to the
//! treasury shard.  The treasury shard records each settled identity in a
//! permanent dedup ledger and triggers the token transfer, so that every
//! claimant identity is paid at most once, whatever concurrent submissions
//! or message redeliveries occur.

pub mod types;
pub mod bytes;
pub mod ledger;
pub mod coordinator;
pub mod crypto;
pub mod oracle;
pub mod channel;
pub mod codec;
