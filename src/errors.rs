use vstd::prelude::*;

verus! {

/// Errors raised by the coordinator and the round state machine.
#[derive(Clone, Copy, Debug, PartialEq, Eq, Structural)]
pub enum CoordinatorError {
    ChunkLockAlreadyAcquired,
    ChunkMissing,
    ChunkNotLocked,
    ChunkNotLockedOrByWrongParticipant,
    ContributionAlreadyVerified,
    ContributionIdMismatch,
    ContributionLocatorAlreadyExists,
    ContributionLocatorMissing,
    ContributionMissing,
    ContributionMissingVerification,
    ContributionsComplete,
    ContributionShouldNotExist,
    ExpectedVerifier,
    LocatorFormatIncorrect,
    RoundAlreadyInitialized,
    RoundDoesNotExist,
    RoundHeightIsZero,
    RoundHeightMismatch,
    RoundLocatorAlreadyExists,
    RoundNotComplete,
    StorageFailed,
    StorageLocatorAlreadyExists,
    StorageLocatorMissing,
    FileSizeMismatch,
    UnauthorizedChunkContributor,
    UnauthorizedChunkVerifier,
    VerificationOnContributionIdZero,
}

} // verus!
