use vstd::prelude::*;

verus! {

/// Why an entry point refused to act. Every one aborts the invocation.
#[derive(Clone, Copy, Debug, PartialEq, Eq, Structural)]
pub enum DaoError {
    AlreadyInitialized,
    Unauthorized,
    WindowExpired,
    InvalidProposal,
    ProposalNotFound,
    AlreadyVoted,
    ProposalExpired,
    DeadlineExpired,
    QuorumNotMet,
    AlreadyExecuted,
    InstructionDecodeError,
    /// A balance, the total, a vote tally, a timestamp or the proposal
    /// counter would leave the range of its integer type.
    Overflow,
}

} // verus!
