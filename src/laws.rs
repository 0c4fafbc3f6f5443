use vstd::prelude::*;

use crate::error::DaoError;
use crate::model::{
    batch_decodes, create_step, execute_step, initialize_step, run_mints, transfer_step, vote_step,
    DaoView, BOOTSTRAP_WINDOW,
};
use crate::types::HiddenInstruction;

verus! {

/// Initialization succeeds on a state without an administrator (where the
/// genesis unit and the window's end fit their types), and any later
/// initialization fails `AlreadyInitialized`.
pub proof fn initialize_only_once(s: DaoView, c1: Seq<u8>, n1: u64, c2: Seq<u8>, n2: u64)
    requires
        s.admin is None,
        i32::MIN <= s.balance(c1) < i32::MAX,
        i32::MIN <= s.total_supply < i32::MAX,
        n1 as int + BOOTSTRAP_WINDOW <= u64::MAX,
    ensures
        initialize_step(s, c1, n1).0 is Ok,
        initialize_step(initialize_step(s, c1, n1).1, c2, n2).0 == Err::<(), DaoError>(
            DaoError::AlreadyInitialized,
        ),
{
}

/// On the initial ledger, initialization leaves the caller with one unit and
/// the total supply at one.
pub proof fn initialize_mints_genesis_unit(s: DaoView, caller: Seq<u8>, now: u64)
    requires
        s.admin is None,
        s.balances == Map::<Seq<u8>, int>::empty(),
        s.total_supply == 0,
        now as int + BOOTSTRAP_WINDOW <= u64::MAX,
    ensures
        initialize_step(s, caller, now).0 is Ok,
        initialize_step(s, caller, now).1.balance(caller) == 1,
        initialize_step(s, caller, now).1.total_supply == 1,
{
}

/// A caller that is not the administrator cannot mint, at any time.
pub proof fn transfer_needs_admin(s: DaoView, caller: Seq<u8>, now: u64, amount: int, to: Seq<u8>)
    requires
        s.admin != Some(caller),
    ensures
        transfer_step(s, caller, now, amount, to) == (
            Err::<(), DaoError>(DaoError::Unauthorized),
            s,
        ),
{
}

/// The administrator cannot mint once the bootstrap window has closed.
pub proof fn transfer_needs_open_window(
    s: DaoView,
    caller: Seq<u8>,
    now: u64,
    amount: int,
    to: Seq<u8>,
)
    requires
        s.admin == Some(caller),
        now >= s.bootstrap_deadline,
    ensures
        transfer_step(s, caller, now, amount, to) == (
            Err::<(), DaoError>(DaoError::WindowExpired),
            s,
        ),
{
}

/// A proposal with a nonzero vote total is refused.
pub proof fn create_rejects_nonzero_votes(
    s: DaoView,
    total_votes: int,
    deadline: u64,
    instructions: Seq<HiddenInstruction>,
)
    requires
        total_votes != 0,
    ensures
        create_step(s, total_votes, deadline, instructions) == (
            Err::<u32, DaoError>(DaoError::InvalidProposal),
            s,
        ),
{
}

/// A created proposal gets the number of proposals before it as its id, and
/// the next creation gets the id after it: ids run 0, 1, 2, ... with no gap
/// and no reuse.
pub proof fn create_ids_are_dense(
    s: DaoView,
    d1: u64,
    b1: Seq<HiddenInstruction>,
    d2: u64,
    b2: Seq<HiddenInstruction>,
)
    requires
        create_step(s, 0, d1, b1).0 is Ok,
        create_step(create_step(s, 0, d1, b1).1, 0, d2, b2).0 is Ok,
    ensures
        create_step(s, 0, d1, b1).0 == Ok::<u32, DaoError>(s.proposal_count() as u32),
        create_step(s, 0, d1, b1).1.proposal_count() == s.proposal_count() + 1,
        create_step(create_step(s, 0, d1, b1).1, 0, d2, b2).0 == Ok::<u32, DaoError>(
            (s.proposal_count() + 1) as u32,
        ),
{
}

/// A vote adds the voter's balance at the moment of the vote to the tally,
/// and a second vote by the same voter on the same proposal fails
/// `AlreadyVoted`.
pub proof fn vote_once_with_current_balance(
    s: DaoView,
    voter: Seq<u8>,
    n1: u64,
    n2: u64,
    id: u32,
)
    requires
        vote_step(s, voter, n1, id).0 is Ok,
    ensures
        vote_step(s, voter, n1, id).1.tallies[id as int] == s.tallies[id as int] + s.balance(
            voter,
        ),
        vote_step(vote_step(s, voter, n1, id).1, voter, n2, id).0 == Err::<(), DaoError>(
            DaoError::AlreadyVoted,
        ),
{
    assert(vote_step(s, voter, n1, id).1.votes.contains((voter, id)));
}

/// A first vote on an existing proposal at or after its deadline fails
/// `ProposalExpired`.
pub proof fn vote_after_deadline_fails(s: DaoView, voter: Seq<u8>, now: u64, id: u32)
    requires
        id < s.proposal_count(),
        !s.has_voted(voter, id),
        now >= s.deadlines[id as int],
    ensures
        vote_step(s, voter, now, id) == (Err::<(), DaoError>(DaoError::ProposalExpired), s),
{
}

/// On a proposal that exists, has not run and is still open, execution fails
/// `QuorumNotMet` exactly when its tally is at most half the current supply
/// (floor division).
pub proof fn execute_needs_quorum(s: DaoView, own: Seq<u8>, now: u64, id: u32)
    requires
        id < s.proposal_count(),
        !s.is_executed(id),
        now < s.deadlines[id as int],
    ensures
        (execute_step(s, own, now, id).0 == Err::<Seq<usize>, DaoError>(DaoError::QuorumNotMet))
            <==> s.tallies[id as int] <= s.total_supply / 2,
{
}

/// Past quorum, execution succeeds (where its mints decode and fit), marks
/// the proposal executed, and any later attempt fails `AlreadyExecuted`.
pub proof fn execute_succeeds_once(s: DaoView, own: Seq<u8>, n1: u64, n2: u64, id: u32)
    requires
        s.well_formed(),
        id < s.proposal_count(),
        !s.is_executed(id),
        n1 < s.deadlines[id as int],
        s.tallies[id as int] > s.total_supply / 2,
        batch_decodes(s.batches[id as int], own),
        run_mints(s.balances, s.total_supply, s.batches[id as int], own) is Some,
    ensures
        execute_step(s, own, n1, id).0 is Ok,
        execute_step(s, own, n1, id).1.is_executed(id),
        execute_step(execute_step(s, own, n1, id).1, own, n2, id).0 == Err::<
            Seq<usize>,
            DaoError,
        >(DaoError::AlreadyExecuted),
{
}

/// A proposal that has not run cannot run at or after its deadline, whatever
/// its tally.
pub proof fn execute_after_deadline_fails(s: DaoView, own: Seq<u8>, now: u64, id: u32)
    requires
        id < s.proposal_count(),
        !s.is_executed(id),
        now >= s.deadlines[id as int],
    ensures
        execute_step(s, own, now, id) == (
            Err::<Seq<usize>, DaoError>(DaoError::DeadlineExpired),
            s,
        ),
{
}

} // verus!
