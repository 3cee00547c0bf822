//! A provably fair dice-wagering library.
//!
//! A player escrows a wager against a chosen threshold, a trusted off-chain
//! oracle signs a canonical message describing the bet, and settlement
//! verifies that signature, derives a deterministic outcome from the
//! signature bytes, and pays out from (or keeps funds in) a custodial vault.
//! An unresolved bet can be refunded after a timeout.
//!
//! The bet lifecycle state machine — escrow custody, signature checking,
//! outcome and payout computation, and timeout refund — is verified: each
//! operation's effect on the vault and on the set of open bets is stated
//! exactly, and the solvency, exactly-once-settlement, message-binding and
//! refund-boundary laws are proved in [`laws`].

pub mod codec;
pub mod crypto;
pub mod engine;
pub mod laws;
