use vstd::prelude::*;

use crate::error::DaoError;
use crate::ledger::{balance_in, fits_i32, mint_step};
use crate::types::{decode_mint, is_self_mint, HiddenInstruction};

verus! {

/// Length of the administrator's minting window after initialization: seven
/// days of ledger time.
pub const BOOTSTRAP_WINDOW: u64 = 604800;

/// The abstract state of the module. Proposal `id` is the entry at position
/// `id` of `tallies`, `deadlines`, `batches` and `executed`.
pub struct DaoView {
    pub admin: Option<Seq<u8>>,
    pub bootstrap_deadline: u64,
    pub balances: Map<Seq<u8>, int>,
    pub total_supply: int,
    pub tallies: Seq<int>,
    pub deadlines: Seq<u64>,
    pub batches: Seq<Seq<HiddenInstruction>>,
    pub votes: Set<(Seq<u8>, u32)>,
    pub executed: Seq<bool>,
}

impl DaoView {
    /// The proposal tables have one entry per proposal.
    pub open spec fn well_formed(self) -> bool {
        &&& self.deadlines.len() == self.tallies.len()
        &&& self.batches.len() == self.tallies.len()
        &&& self.executed.len() == self.tallies.len()
    }

    pub open spec fn balance(self, a: Seq<u8>) -> int {
        balance_in(self.balances, a)
    }

    pub open spec fn proposal_count(self) -> nat {
        self.tallies.len()
    }

    pub open spec fn has_voted(self, voter: Seq<u8>, id: u32) -> bool {
        self.votes.contains((voter, id))
    }

    pub open spec fn is_executed(self, id: u32) -> bool {
        id < self.executed.len() && self.executed[id as int]
    }

    /// Whether `tally` is more than half of the current supply, halved with
    /// floor division.
    pub open spec fn quorum_met(self, tally: int) -> bool {
        tally > self.total_supply / 2
    }
}

/// The balances and total after the self-addressed mints of a batch run in
/// order; `None` where one of them cannot be decoded or overflows.
pub open spec fn run_mints(m: Map<Seq<u8>, int>, total: int, b: Seq<HiddenInstruction>, own: Seq<u8>) -> Option<
    (Map<Seq<u8>, int>, int),
>
    decreases b.len(),
{
    if b.len() == 0 {
        Some((m, total))
    } else {
        match run_mints(m, total, b.drop_last(), own) {
            None => None,
            Some((m1, t1)) => if is_self_mint(b.last(), own) {
                match decode_mint(b.last().arguments@) {
                    Some((amount, to)) => mint_step(m1, t1, amount, to),
                    None => None,
                }
            } else {
                Some((m1, t1))
            },
        }
    }
}

/// The positions, in order, of the instructions of a batch that are handed
/// to other modules.
pub open spec fn forwarded_positions(b: Seq<HiddenInstruction>, own: Seq<u8>) -> Seq<usize>
    decreases b.len(),
{
    if b.len() == 0 {
        Seq::empty()
    } else if is_self_mint(b.last(), own) {
        forwarded_positions(b.drop_last(), own)
    } else {
        forwarded_positions(b.drop_last(), own).push((b.len() - 1) as usize)
    }
}

/// Every self-addressed mint of the batch carries an amount and a recipient.
pub open spec fn batch_decodes(b: Seq<HiddenInstruction>, own: Seq<u8>) -> bool {
    forall|k: int|
        0 <= k < b.len() && is_self_mint(#[trigger] b[k], own) ==> decode_mint(
            b[k].arguments@,
        ) is Some
}

pub open spec fn initialize_step(s: DaoView, caller: Seq<u8>, now: u64) -> (
    Result<(), DaoError>,
    DaoView,
) {
    if s.admin is Some {
        (Err(DaoError::AlreadyInitialized), s)
    } else if now as int + BOOTSTRAP_WINDOW > u64::MAX {
        (Err(DaoError::Overflow), s)
    } else {
        match mint_step(s.balances, s.total_supply, 1, caller) {
            None => (Err(DaoError::Overflow), s),
            Some((m, t)) => (
                Ok(()),
                DaoView {
                    admin: Some(caller),
                    bootstrap_deadline: (now + BOOTSTRAP_WINDOW) as u64,
                    balances: m,
                    total_supply: t,
                    ..s
                },
            ),
        }
    }
}

pub open spec fn transfer_step(
    s: DaoView,
    caller: Seq<u8>,
    now: u64,
    amount: int,
    to: Seq<u8>,
) -> (Result<(), DaoError>, DaoView) {
    if s.admin != Some(caller) {
        (Err(DaoError::Unauthorized), s)
    } else if now >= s.bootstrap_deadline {
        (Err(DaoError::WindowExpired), s)
    } else {
        match mint_step(s.balances, s.total_supply, amount, to) {
            None => (Err(DaoError::Overflow), s),
            Some((m, t)) => (Ok(()), DaoView { balances: m, total_supply: t, ..s }),
        }
    }
}

pub open spec fn create_step(
    s: DaoView,
    total_votes: int,
    deadline: u64,
    instructions: Seq<HiddenInstruction>,
) -> (Result<u32, DaoError>, DaoView) {
    if total_votes != 0 {
        (Err(DaoError::InvalidProposal), s)
    } else if s.proposal_count() >= u32::MAX {
        (Err(DaoError::Overflow), s)
    } else {
        (
            Ok(s.proposal_count() as u32),
            DaoView {
                tallies: s.tallies.push(0),
                deadlines: s.deadlines.push(deadline),
                batches: s.batches.push(instructions),
                executed: s.executed.push(false),
                ..s
            },
        )
    }
}

pub open spec fn vote_step(s: DaoView, voter: Seq<u8>, now: u64, id: u32) -> (
    Result<(), DaoError>,
    DaoView,
) {
    if id >= s.proposal_count() {
        (Err(DaoError::ProposalNotFound), s)
    } else if s.has_voted(voter, id) {
        (Err(DaoError::AlreadyVoted), s)
    } else if now >= s.deadlines[id as int] {
        (Err(DaoError::ProposalExpired), s)
    } else if !fits_i32(s.tallies[id as int] + s.balance(voter)) {
        (Err(DaoError::Overflow), s)
    } else {
        (
            Ok(()),
            DaoView {
                tallies: s.tallies.update(id as int, s.tallies[id as int] + s.balance(voter)),
                votes: s.votes.insert((voter, id)),
                ..s
            },
        )
    }
}

pub open spec fn execute_step(s: DaoView, own: Seq<u8>, now: u64, id: u32) -> (
    Result<Seq<usize>, DaoError>,
    DaoView,
) {
    if s.is_executed(id) {
        (Err(DaoError::AlreadyExecuted), s)
    } else if id >= s.proposal_count() {
        (Err(DaoError::ProposalNotFound), s)
    } else if now >= s.deadlines[id as int] {
        (Err(DaoError::DeadlineExpired), s)
    } else if !s.quorum_met(s.tallies[id as int]) {
        (Err(DaoError::QuorumNotMet), s)
    } else if !batch_decodes(s.batches[id as int], own) {
        (Err(DaoError::InstructionDecodeError), s)
    } else {
        match run_mints(s.balances, s.total_supply, s.batches[id as int], own) {
            None => (Err(DaoError::Overflow), s),
            Some((m, t)) => (
                Ok(forwarded_positions(s.batches[id as int], own)),
                DaoView {
                    balances: m,
                    total_supply: t,
                    executed: s.executed.update(id as int, true),
                    ..s
                },
            ),
        }
    }
}

} // verus!
