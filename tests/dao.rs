use secret_dao::{
    Argument, ClassifiedProposal, DaoError, HiddenInstruction, SecretDaoContract,
};

fn account(b: u8) -> Vec<u8> {
    vec![b; 32]
}

fn own_id() -> Vec<u8> {
    vec![0xAA; 32]
}

fn mint_instruction(amount: i32, to: &Vec<u8>) -> HiddenInstruction {
    HiddenInstruction {
        contract_id: own_id(),
        function_name: b"transfer_hidden_assets".to_vec(),
        arguments: vec![Argument::Int(amount), Argument::Account(to.clone())],
    }
}

fn proposal(deadline: u64, instructions: Vec<HiddenInstruction>) -> ClassifiedProposal {
    ClassifiedProposal { total_votes: 0, deadline, instructions }
}

const T0: u64 = 1_000;

fn initialized(admin: &Vec<u8>) -> SecretDaoContract {
    let mut dao = SecretDaoContract::new();
    dao.initialize(admin, T0).unwrap();
    dao
}

#[test]
fn initialize_succeeds_exactly_once() {
    let a = account(1);
    let mut dao = SecretDaoContract::new();
    assert_eq!(dao.initialize(&a, T0), Ok(()));
    assert_eq!(dao.initialize(&a, T0 + 1), Err(DaoError::AlreadyInitialized));
    assert_eq!(dao.initialize(&account(2), T0 + 2), Err(DaoError::AlreadyInitialized));
    assert_eq!(dao.total_concealed_assets(), 1);
}

#[test]
fn initialize_mints_one_unit_to_caller() {
    let a = account(1);
    let dao = initialized(&a);
    assert_eq!(dao.check_user_assets(&a), 1);
    assert_eq!(dao.total_concealed_assets(), 1);
    assert_eq!(dao.check_user_assets(&account(2)), 0);
}

#[test]
fn initialize_window_end_overflow() {
    let mut dao = SecretDaoContract::new();
    assert_eq!(dao.initialize(&account(1), u64::MAX - 10), Err(DaoError::Overflow));
    assert_eq!(dao.total_concealed_assets(), 0);
    assert_eq!(dao.initialize(&account(1), T0), Ok(()));
}

#[test]
fn transfer_by_non_admin_is_unauthorized() {
    let a = account(1);
    let b = account(2);
    let mut dao = initialized(&a);
    assert_eq!(dao.transfer_hidden_assets(&b, T0 + 1, 5, &b), Err(DaoError::Unauthorized));
    assert_eq!(
        dao.transfer_hidden_assets(&b, T0 + 604_800 + 5, 5, &b),
        Err(DaoError::Unauthorized)
    );
    assert_eq!(dao.check_user_assets(&b), 0);
}

#[test]
fn transfer_before_initialize_is_unauthorized() {
    let mut dao = SecretDaoContract::new();
    let a = account(1);
    assert_eq!(dao.transfer_hidden_assets(&a, T0, 5, &a), Err(DaoError::Unauthorized));
}

#[test]
fn transfer_by_admin_within_window() {
    let a = account(1);
    let b = account(2);
    let mut dao = initialized(&a);
    assert_eq!(dao.transfer_hidden_assets(&a, T0 + 604_799, 7, &b), Ok(()));
    assert_eq!(dao.check_user_assets(&b), 7);
    assert_eq!(dao.total_concealed_assets(), 8);
}

#[test]
fn transfer_negative_amount_is_allowed() {
    let a = account(1);
    let b = account(2);
    let mut dao = initialized(&a);
    assert_eq!(dao.transfer_hidden_assets(&a, T0 + 1, -3, &b), Ok(()));
    assert_eq!(dao.check_user_assets(&b), -3);
    assert_eq!(dao.total_concealed_assets(), -2);
}

#[test]
fn transfer_after_window_expired() {
    let a = account(1);
    let mut dao = initialized(&a);
    assert_eq!(dao.transfer_hidden_assets(&a, T0 + 604_800, 5, &a), Err(DaoError::WindowExpired));
    assert_eq!(dao.transfer_hidden_assets(&a, T0 + 700_000, 5, &a), Err(DaoError::WindowExpired));
    assert_eq!(dao.check_user_assets(&a), 1);
}

#[test]
fn transfer_overflow_leaves_ledger() {
    let a = account(1);
    let mut dao = initialized(&a);
    assert_eq!(dao.transfer_hidden_assets(&a, T0 + 1, i32::MAX, &a), Err(DaoError::Overflow));
    assert_eq!(dao.check_user_assets(&a), 1);
    assert_eq!(dao.total_concealed_assets(), 1);
}

#[test]
fn create_rejects_nonzero_total_votes() {
    let mut dao = SecretDaoContract::new();
    let p = ClassifiedProposal { total_votes: 3, deadline: T0, instructions: vec![] };
    assert_eq!(dao.create_secret_proposal(p), Err(DaoError::InvalidProposal));
    assert_eq!(dao.proposal_count(), 0);
}

#[test]
fn create_ids_are_sequential() {
    let mut dao = SecretDaoContract::new();
    assert_eq!(dao.create_secret_proposal(proposal(T0, vec![])), Ok(0));
    assert_eq!(dao.create_secret_proposal(proposal(T0, vec![])), Ok(1));
    let bad = ClassifiedProposal { total_votes: -1, deadline: T0, instructions: vec![] };
    assert_eq!(dao.create_secret_proposal(bad), Err(DaoError::InvalidProposal));
    assert_eq!(dao.create_secret_proposal(proposal(T0, vec![])), Ok(2));
    assert_eq!(dao.proposal_count(), 3);
    assert_eq!(dao.proposal_votes(2), Some(0));
    assert_eq!(dao.proposal_votes(3), None);
}

#[test]
fn vote_twice_fails_already_voted() {
    let a = account(1);
    let mut dao = initialized(&a);
    let id = dao.create_secret_proposal(proposal(T0 + 100, vec![])).unwrap();
    assert_eq!(dao.cast_secret_ballot(&a, T0 + 1, id), Ok(()));
    assert!(dao.has_cast_vote(&a, id));
    assert_eq!(dao.cast_secret_ballot(&a, T0 + 2, id), Err(DaoError::AlreadyVoted));
    assert_eq!(dao.proposal_votes(id), Some(1));
}

#[test]
fn vote_weight_is_balance_at_vote_time() {
    let a = account(1);
    let b = account(2);
    let mut dao = initialized(&a);
    let id = dao.create_secret_proposal(proposal(T0 + 100, vec![])).unwrap();
    dao.transfer_hidden_assets(&a, T0 + 1, 6, &b).unwrap();
    assert_eq!(dao.cast_secret_ballot(&b, T0 + 2, id), Ok(()));
    assert_eq!(dao.proposal_votes(id), Some(6));
    dao.transfer_hidden_assets(&a, T0 + 3, 4, &a).unwrap();
    assert_eq!(dao.cast_secret_ballot(&a, T0 + 4, id), Ok(()));
    assert_eq!(dao.proposal_votes(id), Some(11));
}

#[test]
fn vote_with_zero_balance_uses_slot() {
    let a = account(1);
    let c = account(3);
    let mut dao = initialized(&a);
    let id = dao.create_secret_proposal(proposal(T0 + 100, vec![])).unwrap();
    assert_eq!(dao.cast_secret_ballot(&c, T0 + 1, id), Ok(()));
    assert_eq!(dao.proposal_votes(id), Some(0));
    assert_eq!(dao.cast_secret_ballot(&c, T0 + 2, id), Err(DaoError::AlreadyVoted));
}

#[test]
fn vote_after_deadline_fails_expired() {
    let a = account(1);
    let mut dao = initialized(&a);
    let id = dao.create_secret_proposal(proposal(T0 + 100, vec![])).unwrap();
    assert_eq!(dao.cast_secret_ballot(&a, T0 + 100, id), Err(DaoError::ProposalExpired));
    assert_eq!(dao.cast_secret_ballot(&a, T0 + 500, id), Err(DaoError::ProposalExpired));
    assert!(!dao.has_cast_vote(&a, id));
}

#[test]
fn vote_on_missing_proposal() {
    let a = account(1);
    let mut dao = initialized(&a);
    assert_eq!(dao.cast_secret_ballot(&a, T0, 0), Err(DaoError::ProposalNotFound));
}

#[test]
fn execute_missing_proposal() {
    let mut dao = SecretDaoContract::new();
    assert_eq!(dao.attempt_execution(&own_id(), T0, 4), Err(DaoError::ProposalNotFound));
}

#[test]
fn execute_quorum_and_deadline() {
    let a = account(1);
    let mut dao = initialized(&a);
    let id = dao.create_secret_proposal(proposal(T0 + 100, vec![])).unwrap();
    assert_eq!(dao.attempt_execution(&own_id(), T0 + 1, id), Err(DaoError::QuorumNotMet));
    dao.cast_secret_ballot(&a, T0 + 2, id).unwrap();
    assert_eq!(dao.attempt_execution(&own_id(), T0 + 100, id), Err(DaoError::DeadlineExpired));
    assert!(!dao.is_executed(id));
    assert_eq!(dao.attempt_execution(&own_id(), T0 + 99, id), Ok(vec![]));
    assert!(dao.is_executed(id));
    assert_eq!(dao.attempt_execution(&own_id(), T0 + 99, id), Err(DaoError::AlreadyExecuted));
}

#[test]
fn execute_threshold_uses_floor_division() {
    let a = account(1);
    let b = account(2);
    let mut dao = initialized(&a);
    dao.transfer_hidden_assets(&a, T0 + 1, 2, &b).unwrap();
    let id = dao.create_secret_proposal(proposal(T0 + 100, vec![])).unwrap();
    // supply 3, threshold floor(3/2) = 1: a tally of 1 is not enough
    dao.cast_secret_ballot(&a, T0 + 2, id).unwrap();
    assert_eq!(dao.attempt_execution(&own_id(), T0 + 3, id), Err(DaoError::QuorumNotMet));
    dao.cast_secret_ballot(&b, T0 + 4, id).unwrap();
    assert_eq!(dao.attempt_execution(&own_id(), T0 + 5, id), Ok(vec![]));
}

#[test]
fn execute_threshold_with_negative_supply() {
    let a = account(1);
    let b = account(2);
    let c = account(3);
    let mut dao = initialized(&a);
    dao.transfer_hidden_assets(&a, T0 + 1, -1, &b).unwrap();
    dao.transfer_hidden_assets(&a, T0 + 1, -3, &c).unwrap();
    assert_eq!(dao.total_concealed_assets(), -3);
    let id = dao.create_secret_proposal(proposal(T0 + 100, vec![])).unwrap();
    dao.cast_secret_ballot(&c, T0 + 2, id).unwrap();
    // supply -3, threshold floor(-3/2) = -2: a tally of -3 is not enough
    assert_eq!(dao.attempt_execution(&own_id(), T0 + 3, id), Err(DaoError::QuorumNotMet));
    let id2 = dao.create_secret_proposal(proposal(T0 + 100, vec![])).unwrap();
    dao.cast_secret_ballot(&b, T0 + 4, id2).unwrap();
    // a tally of -1 exceeds -2
    assert_eq!(dao.proposal_votes(id2), Some(-1));
    assert_eq!(dao.attempt_execution(&own_id(), T0 + 5, id2), Ok(vec![]));
}

#[test]
fn scenario_admin_mints_through_proposal() {
    let a = account(1);
    let b = account(2);
    let mut dao = initialized(&a);
    assert_eq!(dao.check_user_assets(&a), 1);
    assert_eq!(dao.total_concealed_assets(), 1);
    let id = dao
        .create_secret_proposal(proposal(T0 + 100, vec![mint_instruction(10, &b)]))
        .unwrap();
    assert_eq!(dao.cast_secret_ballot(&a, T0 + 1, id), Ok(()));
    assert_eq!(dao.proposal_votes(id), Some(1));
    assert_eq!(dao.attempt_execution(&own_id(), T0 + 2, id), Ok(vec![]));
    assert_eq!(dao.check_user_assets(&b), 10);
    assert_eq!(dao.total_concealed_assets(), 11);
    assert!(dao.is_executed(id));
    assert_eq!(dao.attempt_execution(&own_id(), T0 + 3, id), Err(DaoError::AlreadyExecuted));
    assert_eq!(dao.check_user_assets(&b), 10);
}

#[test]
fn scenario_two_voters_reach_quorum_together() {
    let a = account(1);
    let b = account(2);
    let mut dao = initialized(&a);
    dao.transfer_hidden_assets(&a, T0 + 1, 4, &a).unwrap();
    dao.transfer_hidden_assets(&a, T0 + 1, 5, &b).unwrap();
    assert_eq!(dao.check_user_assets(&a), 5);
    assert_eq!(dao.check_user_assets(&b), 5);
    assert_eq!(dao.total_concealed_assets(), 10);
    let id = dao.create_secret_proposal(proposal(T0 + 100, vec![])).unwrap();
    dao.cast_secret_ballot(&a, T0 + 2, id).unwrap();
    assert_eq!(dao.proposal_votes(id), Some(5));
    assert_eq!(dao.attempt_execution(&own_id(), T0 + 3, id), Err(DaoError::QuorumNotMet));
    dao.cast_secret_ballot(&b, T0 + 4, id).unwrap();
    assert_eq!(dao.proposal_votes(id), Some(10));
    assert_eq!(dao.attempt_execution(&own_id(), T0 + 5, id), Ok(vec![]));
}

#[test]
fn execute_forwards_other_instructions_in_order() {
    let a = account(1);
    let b = account(2);
    let other = HiddenInstruction {
        contract_id: vec![0xBB; 32],
        function_name: b"transfer_hidden_assets".to_vec(),
        arguments: vec![Argument::Raw(42)],
    };
    let self_other = HiddenInstruction {
        contract_id: own_id(),
        function_name: b"payout".to_vec(),
        arguments: vec![],
    };
    let mut dao = initialized(&a);
    let id = dao
        .create_secret_proposal(proposal(
            T0 + 100,
            vec![other, mint_instruction(3, &b), self_other, mint_instruction(2, &b)],
        ))
        .unwrap();
    dao.cast_secret_ballot(&a, T0 + 1, id).unwrap();
    assert_eq!(dao.attempt_execution(&own_id(), T0 + 2, id), Ok(vec![0, 2]));
    assert_eq!(dao.check_user_assets(&b), 5);
    assert_eq!(dao.total_concealed_assets(), 6);
    assert_eq!(dao.instruction(id, 2).function_name, b"payout".to_vec());
}

#[test]
fn execute_undecodable_mint_fails() {
    let a = account(1);
    let b = account(2);
    let broken = HiddenInstruction {
        contract_id: own_id(),
        function_name: b"transfer_hidden_assets".to_vec(),
        arguments: vec![Argument::Account(b.clone()), Argument::Int(3)],
    };
    let mut dao = initialized(&a);
    let id = dao
        .create_secret_proposal(proposal(T0 + 100, vec![mint_instruction(3, &b), broken]))
        .unwrap();
    dao.cast_secret_ballot(&a, T0 + 1, id).unwrap();
    assert_eq!(
        dao.attempt_execution(&own_id(), T0 + 2, id),
        Err(DaoError::InstructionDecodeError)
    );
    assert_eq!(dao.check_user_assets(&b), 0);
    assert!(!dao.is_executed(id));
}

#[test]
fn execute_overflowing_batch_changes_nothing() {
    let a = account(1);
    let b = account(2);
    let mut dao = initialized(&a);
    let id = dao
        .create_secret_proposal(proposal(
            T0 + 100,
            vec![mint_instruction(5, &b), mint_instruction(i32::MAX, &b)],
        ))
        .unwrap();
    dao.cast_secret_ballot(&a, T0 + 1, id).unwrap();
    assert_eq!(dao.attempt_execution(&own_id(), T0 + 2, id), Err(DaoError::Overflow));
    assert_eq!(dao.check_user_assets(&b), 0);
    assert_eq!(dao.total_concealed_assets(), 1);
    assert!(!dao.is_executed(id));
}

#[test]
fn execute_mint_from_other_module_is_forwarded() {
    let a = account(1);
    let b = account(2);
    let mut dao = initialized(&a);
    let id = dao
        .create_secret_proposal(proposal(T0 + 100, vec![mint_instruction(4, &b)]))
        .unwrap();
    dao.cast_secret_ballot(&a, T0 + 1, id).unwrap();
    assert_eq!(dao.attempt_execution(&vec![0xCC; 32], T0 + 2, id), Ok(vec![0]));
    assert_eq!(dao.check_user_assets(&b), 0);
}

#[test]
fn vote_tally_overflow_is_refused() {
    let a = account(1);
    let b = account(2);
    let d = account(4);
    let mut dao = initialized(&a);
    let id = dao.create_secret_proposal(proposal(T0 + 100, vec![])).unwrap();
    dao.transfer_hidden_assets(&a, T0 + 1, i32::MAX - 1, &b).unwrap();
    dao.cast_secret_ballot(&b, T0 + 2, id).unwrap();
    dao.transfer_hidden_assets(&a, T0 + 3, -(i32::MAX - 1), &b).unwrap();
    dao.transfer_hidden_assets(&a, T0 + 4, i32::MAX - 1, &d).unwrap();
    assert_eq!(dao.cast_secret_ballot(&d, T0 + 5, id), Err(DaoError::Overflow));
    assert_eq!(dao.proposal_votes(id), Some(i32::MAX - 1));
    assert!(!dao.has_cast_vote(&d, id));
}
