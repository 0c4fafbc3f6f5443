use vstd::prelude::*;

use crate::error::DaoError;
use crate::ledger::AssetLedger;
use crate::model::{
    batch_decodes, create_step, execute_step, forwarded_positions, initialize_step, run_mints,
    transfer_step, vote_step, DaoView, BOOTSTRAP_WINDOW,
};
use crate::types::{
    check_self_mint, decode_mint_args, same_bytes, ClassifiedProposal, HiddenInstruction,
    SecretVote,
};

verus! {

/// Once a mint of a batch fails, the batch as a whole fails.
proof fn lemma_run_mints_prefix_none(
    m: Map<Seq<u8>, int>,
    total: int,
    b: Seq<HiddenInstruction>,
    own: Seq<u8>,
    j: int,
)
    requires
        0 <= j <= b.len(),
        run_mints(m, total, b.take(j), own) is None,
    ensures
        run_mints(m, total, b, own) is None,
    decreases b.len(),
{
    if j == b.len() {
        assert(b.take(j) =~= b);
    } else {
        assert(b.drop_last().take(j) =~= b.take(j));
        lemma_run_mints_prefix_none(m, total, b.drop_last(), own, j);
    }
}

/// The persistent state of the module: administrator, bootstrap window,
/// ledger, proposals, vote records and execution records.
pub struct SecretDaoContract {
    admin: Option<Vec<u8>>,
    bootstrap_deadline: u64,
    ledger: AssetLedger,
    tallies: Vec<i32>,
    deadlines: Vec<u64>,
    batches: Vec<Vec<HiddenInstruction>>,
    votes: Vec<SecretVote>,
    executed: Vec<bool>,
}

impl View for SecretDaoContract {
    type V = DaoView;

    closed spec fn view(&self) -> DaoView {
        DaoView {
            admin: match self.admin {
                Some(a) => Some(a@),
                None => None,
            },
            bootstrap_deadline: self.bootstrap_deadline,
            balances: self.ledger.balances(),
            total_supply: self.ledger.supply(),
            tallies: self.tallies@.map_values(|x: i32| x as int),
            deadlines: self.deadlines@,
            batches: self.batches@.map_values(|b: Vec<HiddenInstruction>| b@),
            votes: Set::new(
                |p: (Seq<u8>, u32)|
                    exists|i: int|
                        0 <= i < self.votes@.len() && self.votes@[i].voter@ == p.0
                            && self.votes@[i].prop_id == p.1,
            ),
            executed: self.executed@,
        }
    }
}

impl SecretDaoContract {
    /// The proposal tables have one entry per proposal, and every id fits in
    /// a `u32`.
    pub closed spec fn wf(&self) -> bool {
        &&& self.ledger.wf()
        &&& self.deadlines@.len() == self.tallies@.len()
        &&& self.batches@.len() == self.tallies@.len()
        &&& self.executed@.len() == self.tallies@.len()
        &&& self.tallies@.len() <= u32::MAX
    }

    /// A well-formed state has a well-formed view.
    pub proof fn lemma_view_well_formed(&self)
        requires
            self.wf(),
        ensures
            self@.well_formed(),
    {
    }

    /// The state before initialization: no administrator, no balances, no
    /// proposals.
    pub fn new() -> (r: SecretDaoContract)
        ensures
            r.wf(),
            r@.admin is None,
            r@.balances == Map::<Seq<u8>, int>::empty(),
            r@.total_supply == 0,
            r@.proposal_count() == 0,
            r@.deadlines == Seq::<u64>::empty(),
            r@.batches == Seq::<Seq<HiddenInstruction>>::empty(),
            r@.executed == Seq::<bool>::empty(),
            r@.votes == Set::<(Seq<u8>, u32)>::empty(),
    {
        let r = SecretDaoContract {
            admin: None,
            bootstrap_deadline: 0,
            ledger: AssetLedger::new(),
            tallies: Vec::new(),
            deadlines: Vec::new(),
            batches: Vec::new(),
            votes: Vec::new(),
            executed: Vec::new(),
        };
        assert(r@.votes =~= Set::<(Seq<u8>, u32)>::empty());
        assert(r@.batches =~= Seq::<Seq<HiddenInstruction>>::empty());
        r
    }

    /// Makes `caller` the administrator, credits it one unit and opens the
    /// administrator's minting window until `now + BOOTSTRAP_WINDOW`.
    pub fn initialize(&mut self, caller: &Vec<u8>, now: u64) -> (r: Result<(), DaoError>)
        requires
            old(self).wf(),
        ensures
            final(self).wf(),
            (r, final(self)@) == initialize_step(old(self)@, caller@, now),
    {
        if self.admin.is_some() {
            return Err(DaoError::AlreadyInitialized);
        }
        let deadline = match now.checked_add(BOOTSTRAP_WINDOW) {
            Some(d) => d,
            None => {
                return Err(DaoError::Overflow);
            },
        };
        match self.ledger.mint(1, caller) {
            Ok(()) => {},
            Err(e) => {
                return Err(e);
            },
        }
        let admin = caller.clone();
        assert(admin@ =~= caller@);
        self.admin = Some(admin);
        self.bootstrap_deadline = deadline;
        Ok(())
    }

    /// The administrator's mint: credits `amount` (of either sign) to `to`
    /// while the bootstrap window is open.
    pub fn transfer_hidden_assets(
        &mut self,
        caller: &Vec<u8>,
        now: u64,
        amount: i32,
        to: &Vec<u8>,
    ) -> (r: Result<(), DaoError>)
        requires
            old(self).wf(),
        ensures
            final(self).wf(),
            (r, final(self)@) == transfer_step(old(self)@, caller@, now, amount as int, to@),
    {
        let is_admin = match &self.admin {
            Some(a) => same_bytes(a, caller),
            None => false,
        };
        if !is_admin {
            return Err(DaoError::Unauthorized);
        }
        if now >= self.bootstrap_deadline {
            return Err(DaoError::WindowExpired);
        }
        self.ledger.mint(amount, to)
    }

    /// Stores a proposal under the next free id and returns that id.
    pub fn create_secret_proposal(&mut self, proposal: ClassifiedProposal) -> (r: Result<
        u32,
        DaoError,
    >)
        requires
            old(self).wf(),
        ensures
            final(self).wf(),
            (r, final(self)@) == create_step(
                old(self)@,
                proposal.total_votes as int,
                proposal.deadline,
                proposal.instructions@,
            ),
    {
        if proposal.total_votes != 0 {
            return Err(DaoError::InvalidProposal);
        }
        if self.tallies.len() >= u32::MAX as usize {
            return Err(DaoError::Overflow);
        }
        let id = self.tallies.len() as u32;
        let ghost instructions = proposal.instructions@;
        self.tallies.push(0);
        self.deadlines.push(proposal.deadline);
        self.batches.push(proposal.instructions);
        self.executed.push(false);
        assert(self.tallies@.map_values(|x: i32| x as int) =~= old(self).tallies@.map_values(
            |x: i32| x as int,
        ).push(0));
        assert(self.batches@.map_values(|b: Vec<HiddenInstruction>| b@) =~= old(
            self,
        ).batches@.map_values(|b: Vec<HiddenInstruction>| b@).push(instructions));
        Ok(id)
    }

    /// Whether `voter` has voted on proposal `prop_id`.
    pub fn has_cast_vote(&self, voter: &Vec<u8>, prop_id: u32) -> (r: bool)
        ensures
            r == self@.has_voted(voter@, prop_id),
    {
        let mut i: usize = 0;
        while i < self.votes.len()
            invariant
                i <= self.votes@.len(),
                forall|j: int|
                    0 <= j < i ==> !(self.votes@[j].voter@ == voter@ && self.votes@[j].prop_id
                        == prop_id),
            decreases self.votes@.len() - i,
        {
            if self.votes[i].prop_id == prop_id && same_bytes(&self.votes[i].voter, voter) {
                assert(self@.votes.contains((voter@, prop_id)));
                return true;
            }
            i = i + 1;
        }
        false
    }

    /// Adds the caller's current balance to the tally of proposal `prop_id`
    /// and records that the caller has voted on it.
    pub fn cast_secret_ballot(&mut self, caller: &Vec<u8>, now: u64, prop_id: u32) -> (r: Result<
        (),
        DaoError,
    >)
        requires
            old(self).wf(),
        ensures
            final(self).wf(),
            (r, final(self)@) == vote_step(old(self)@, caller@, now, prop_id),
    {
        let id = prop_id as usize;
        if id >= self.tallies.len() {
            return Err(DaoError::ProposalNotFound);
        }
        if self.has_cast_vote(caller, prop_id) {
            return Err(DaoError::AlreadyVoted);
        }
        if now >= self.deadlines[id] {
            return Err(DaoError::ProposalExpired);
        }
        let weight = self.ledger.balance_of(caller);
        let tally = match self.tallies[id].checked_add(weight) {
            Some(t) => t,
            None => {
                return Err(DaoError::Overflow);
            },
        };
        self.tallies.set(id, tally);
        let voter = caller.clone();
        assert(voter@ =~= caller@);
        self.votes.push(SecretVote { voter, prop_id });
        assert(self.tallies@.map_values(|x: i32| x as int) =~= old(self).tallies@.map_values(
            |x: i32| x as int,
        ).update(id as int, tally as int));
        assert(self@.votes =~= old(self)@.votes.insert((caller@, prop_id))) by {
            assert forall|p: (Seq<u8>, u32)| #[trigger]
                self@.votes.contains(p) == old(self)@.votes.insert((caller@, prop_id)).contains(
                    p,
                ) by {
                if old(self)@.votes.contains(p) {
                    let i = choose|i: int|
                        0 <= i < old(self).votes@.len() && old(self).votes@[i].voter@ == p.0
                            && old(self).votes@[i].prop_id == p.1;
                    assert(self.votes@[i] == old(self).votes@[i]);
                }
                if p == (caller@, prop_id) {
                    assert(self.votes@[old(self).votes@.len() as int] == SecretVote {
                        voter,
                        prop_id,
                    });
                }
                if self@.votes.contains(p) {
                    let i = choose|i: int|
                        0 <= i < self.votes@.len() && self.votes@[i].voter@ == p.0
                            && self.votes@[i].prop_id == p.1;
                    if i < old(self).votes@.len() {
                        assert(self.votes@[i] == old(self).votes@[i]);
                    }
                }
            }
        }
        Ok(())
    }

    /// Runs the batch of proposal `prop_id`, which must have reached quorum
    /// before its deadline: the mints addressed to this module (`own`) are
    /// applied to the ledger in batch order, the proposal is marked executed,
    /// and the positions of the other instructions are returned, in order,
    /// for the host to forward unchanged.
    ///
    /// The execution record is written before any forwarded call runs, so a
    /// forwarded call that re-enters this entry point for the same proposal
    /// fails `AlreadyExecuted`. A forwarded call that fails aborts the
    /// invocation, and the host then discards all of its writes.
    pub fn attempt_execution(&mut self, own: &Vec<u8>, now: u64, prop_id: u32) -> (r: Result<
        Vec<usize>,
        DaoError,
    >)
        requires
            old(self).wf(),
        ensures
            final(self).wf(),
            final(self)@ == execute_step(old(self)@, own@, now, prop_id).1,
            match r {
                Ok(v) => execute_step(old(self)@, own@, now, prop_id).0 == Ok::<
                    Seq<usize>,
                    DaoError,
                >(v@),
                Err(e) => execute_step(old(self)@, own@, now, prop_id).0 == Err::<
                    Seq<usize>,
                    DaoError,
                >(e),
            },
    {
        let id = prop_id as usize;
        if id < self.executed.len() && self.executed[id] {
            return Err(DaoError::AlreadyExecuted);
        }
        if id >= self.tallies.len() {
            return Err(DaoError::ProposalNotFound);
        }
        if now >= self.deadlines[id] {
            return Err(DaoError::DeadlineExpired);
        }
        let tally = self.tallies[id];
        let supply = self.ledger.total_supply();
        if !((tally as i64) * 2 > supply as i64) {
            assert(!(tally as int > supply as int / 2));
            return Err(DaoError::QuorumNotMet);
        }
        assert(tally as int > supply as int / 2);
        let batch = &self.batches[id];
        assert(self@.batches[id as int] == batch@);
        let mut k: usize = 0;
        while k < batch.len()
            invariant
                *self == *old(self),
                self.wf(),
                id < self.tallies@.len(),
                id == prop_id,
                batch@ == self@.batches[id as int],
                !self@.is_executed(prop_id),
                now < self@.deadlines[id as int],
                self@.quorum_met(self@.tallies[id as int]),
                k <= batch@.len(),
                forall|j: int|
                    0 <= j < k && crate::types::is_self_mint(#[trigger] batch@[j], own@)
                        ==> crate::types::decode_mint(batch@[j].arguments@) is Some,
            decreases batch@.len() - k,
        {
            if check_self_mint(&batch[k], own) {
                if decode_mint_args(&batch[k].arguments).is_none() {
                    return Err(DaoError::InstructionDecodeError);
                }
            }
            k = k + 1;
        }
        assert(batch_decodes(batch@, own@));
        let mut work = self.ledger.duplicate();
        let mut forwarded: Vec<usize> = Vec::new();
        k = 0;
        assert(batch@.take(0) =~= Seq::<HiddenInstruction>::empty());
        while k < batch.len()
            invariant
                *self == *old(self),
                self.wf(),
                id < self.tallies@.len(),
                id == prop_id,
                batch@ == self@.batches[id as int],
                !self@.is_executed(prop_id),
                now < self@.deadlines[id as int],
                self@.quorum_met(self@.tallies[id as int]),
                k <= batch@.len(),
                work.wf(),
                batch_decodes(batch@, own@),
                run_mints(self.ledger.balances(), self.ledger.supply(), batch@.take(k as int), own@)
                    == Some((work.balances(), work.supply())),
                forwarded@ == forwarded_positions(batch@.take(k as int), own@),
            decreases batch@.len() - k,
        {
            assert(batch@.take(k + 1).drop_last() =~= batch@.take(k as int));
            assert(batch@.take(k + 1).last() == batch@[k as int]);
            let ins = &batch[k];
            if check_self_mint(ins, own) {
                match decode_mint_args(&ins.arguments) {
                    Some((amount, to)) => {
                        match work.mint(amount, &to) {
                            Ok(()) => {},
                            Err(_) => {
                                proof {
                                    lemma_run_mints_prefix_none(
                                        self.ledger.balances(),
                                        self.ledger.supply(),
                                        batch@,
                                        own@,
                                        k + 1,
                                    );
                                }
                                return Err(DaoError::Overflow);
                            },
                        }
                    },
                    None => {
                        return Err(DaoError::InstructionDecodeError);
                    },
                }
            } else {
                forwarded.push(k);
            }
            k = k + 1;
        }
        assert(batch@.take(k as int) =~= batch@);
        self.ledger = work;
        self.executed.set(id, true);
        Ok(forwarded)
    }

    /// The balance of `owner`, zero where it has none.
    pub fn check_user_assets(&self, owner: &Vec<u8>) -> (r: i32)
        requires
            self.wf(),
        ensures
            r as int == self@.balance(owner@),
    {
        self.ledger.balance_of(owner)
    }

    /// The number of proposals created so far, which is also the next id.
    pub fn proposal_count(&self) -> (r: usize)
        requires
            self.wf(),
        ensures
            r == self@.proposal_count(),
    {
        self.tallies.len()
    }

    /// The vote tally of proposal `prop_id`, or `None` where there is no
    /// such proposal.
    pub fn proposal_votes(&self, prop_id: u32) -> (r: Option<i32>)
        requires
            self.wf(),
        ensures
            match r {
                Some(t) => prop_id < self@.proposal_count() && t as int == self@.tallies[prop_id as int],
                None => prop_id >= self@.proposal_count(),
            },
    {
        let id = prop_id as usize;
        if id < self.tallies.len() {
            Some(self.tallies[id])
        } else {
            None
        }
    }

    /// Whether proposal `prop_id` has been executed.
    pub fn is_executed(&self, prop_id: u32) -> (r: bool)
        requires
            self.wf(),
        ensures
            r == self@.is_executed(prop_id),
    {
        let id = prop_id as usize;
        id < self.executed.len() && self.executed[id]
    }

    /// Instruction `k` of the batch of proposal `prop_id`, for the host to
    /// forward.
    pub fn instruction(&self, prop_id: u32, k: usize) -> (r: &HiddenInstruction)
        requires
            self.wf(),
            prop_id < self@.proposal_count(),
            k < self@.batches[prop_id as int].len(),
        ensures
            *r == self@.batches[prop_id as int][k as int],
    {
        &self.batches[prop_id as usize][k]
    }

    /// The total of all balances.
    pub fn total_concealed_assets(&self) -> (r: i32)
        ensures
            r as int == self@.total_supply,
    {
        self.ledger.total_supply()
    }
}

} // verus!
