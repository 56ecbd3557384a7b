//! Two-party commit-reveal rock/paper/scissors engine.
//!
//! Each player binds a choice with a one-way commitment (a SHA-256 digest of
//! the choice and a private secret), reveals it later, and the contract
//! resolves the outcome deterministically. The state machine guarantees that
//! no game resolves before both parties have revealed a choice that matches
//! the commitment they put down first.

use vstd::prelude::*;

pub mod codec;
pub mod contract;
pub mod game;
pub mod outcome;
pub mod store;

verus! {

/// Every way a contract operation can be refused. Operations that fail with
/// one of these leave the stored records exactly as they were.
#[derive(Debug, Clone, Copy, PartialEq, Eq, Structural)]
pub enum RPSError {
    /// The initiator already has a game in the active store.
    AlreadyActive,
    /// No game is stored under the given identity, or the caller is not a
    /// party to it.
    NotFound,
    /// The operation is illegal in the game's current state.
    WrongState,
    /// A joiner tried to play against their own game.
    SelfJoin,
    /// A revealed `(choice, secret)` pair does not hash to the stored
    /// commitment.
    CommitmentMismatch,
    /// The calling party has already revealed a choice.
    AlreadyRevealed,
    /// The revealed choice is not one of the three canonical values.
    InvalidChoice,
    /// Resolution was requested before both reveals arrived.
    NotReady,
}

} // verus!
