//! Plain values shared by the registry, admission control and the ballot.
use vstd::prelude::*;

verus! {

/// A ledger account.
pub type AccountId = u64;

/// A 16-byte identity token.
pub type AadhaarId = [u8; 16];

/// The 32 bytes of an sr25519 public key.
pub type PublicKey = [u8; 32];

/// The number of a voting session.
pub type VoteIndex = u32;

/// The record that binds an identity token to an account.
#[derive(Clone, Copy, PartialEq, Eq, Debug)]
pub struct Aadhaar {
    /// Identity token of the user
    pub aadhaar_id: AadhaarId,
    /// Account linked to the token
    pub account_id: AccountId,
}

/// Where a voting session stands.
#[derive(Clone, Copy, PartialEq, Eq, Debug, Structural)]
pub enum VoteState {
    Idle,
    Voting,
    Ended,
}

/// A candidate of one session and the votes cast for it there.
#[derive(Clone, Copy, PartialEq, Eq, Debug)]
pub struct Candidate {
    pub aadhaar_id: AadhaarId,
    pub vote_count: u16,
}

} // verus!
