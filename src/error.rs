use vstd::prelude::*;

verus! {

/// Every failure that the ledger operations report.
#[derive(Debug, Clone, Copy, PartialEq, Eq, Structural)]
pub enum SilError {
    /// The instruction buffer could not be decoded.
    InstructionUnpackError,
    /// A region is shorter than the record stored in it.
    AccountDataTooSmall,
    /// A record that must be fresh already carries a version.
    AlreadyInitialized,
    /// A record was read whose version byte is zero.
    Uninitialized,
    /// A record was read whose version byte is not the current schema version.
    VersionIsNotMatched,
    /// A side already holds the largest number of containers of one kind.
    ExceedsMaxQueueNum,
    /// A pending total would overflow.
    MathOverflow,
    /// A container's stored counters contradict each other.
    InvalidQueueState,
    /// Pop or peek on an empty container.
    EmptyQueue,
    /// Every ring container of a group is full.
    ErrorPushInFIFOGroup,
    /// Every stack container of a group is full.
    ErrorPushInLIFOGroup,
    /// No stack container of a group was chosen to pop from.
    ErrorPopFromFIFOGroup,
    /// A user index array of one kind is full.
    ErrorPushInUserIndex,
    /// A user index array of one kind is empty.
    ErrorPopFromUserIndex,
    /// A container identifier is the all-zero key.
    InvalidQueueKey,
    /// A region is not owned by this program.
    InvalidAccountOwner,
    /// The signer is not the expected authority.
    InvalidAuthority,
    /// A match pair does not belong to the given admin.
    InvalidMatchPair,
    /// A region does not hold enough lamports to be rent exempt.
    NotRentExempt,
    /// The token program refused to initialize an account.
    TokenInitializeAccountFailed,
    /// The token program refused a transfer.
    TokenTransferFailed,
    /// The token program refused an approval.
    TokenApproveFailed,
    /// The token program refused a revocation.
    TokenRevokeFailed,
}

} // verus!
