use vatix::address::Address;
use vatix::resolution::types::CandidateStatus;
use vatix::resolution::{validate_challenge_window, validate_uri, ContractError, ResolutionContract};

fn setup() -> (ResolutionContract, Address, Address) {
    let mut client = ResolutionContract::new();
    let admin = Address::account(1);
    let factory = Address::contract(2);
    let market_contract = Address::contract(3);
    client.initialize(admin, factory, market_contract).unwrap();
    (client, admin, market_contract)
}

fn signature() -> [u8; 64] {
    [7u8; 64]
}

fn evidence() -> String {
    String::from("ipfs://resolution-evidence")
}

fn propose(
    client: &mut ResolutionContract,
    proposer: Address,
    market_id: u32,
    outcome: bool,
    window: u64,
    now: u64,
) -> Result<u32, ContractError> {
    client.propose(proposer, market_id, outcome, signature(), evidence(), window, now, Ok(()))
}

#[test]
fn propose_stores_candidate_with_challenge_deadline() {
    let (mut client, _, _) = setup();
    let proposer = Address::account(10);
    let candidate_id = propose(&mut client, proposer, 42, true, 300, 1_000).unwrap();
    assert_eq!(candidate_id, 1);
    let candidate = client.get_candidate(candidate_id).unwrap();
    assert_eq!(candidate.market_id, 42);
    assert_eq!(candidate.outcome, true);
    assert_eq!(candidate.challenge_deadline, 1_300);
    assert_eq!(client.get_candidate_id_for_market(42), Some(candidate_id));
}

#[test]
fn challenge_marks_candidate_and_blocks_finalize() {
    let (mut client, _, _) = setup();
    let proposer = Address::account(10);
    let candidate_id = propose(&mut client, proposer, 1, false, 300, 1_000).unwrap();
    let challenger = Address::account(11);
    client.challenge(challenger, candidate_id, String::from("ipfs://challenge"), 1_000).unwrap();
    let finalizer = Address::account(12);
    assert_eq!(
        client.finalize(finalizer, candidate_id, 1_400),
        Err(ContractError::CandidateAlreadyChallenged)
    );
}

#[test]
fn finalize_requires_closed_challenge_window() {
    let (mut client, _, _) = setup();
    let proposer = Address::account(10);
    let candidate_id = propose(&mut client, proposer, 1, true, 300, 1_000).unwrap();
    let finalizer = Address::account(12);
    assert_eq!(
        client.finalize(finalizer, candidate_id, 1_000),
        Err(ContractError::ChallengeWindowOpen)
    );
    let candidate = client.finalize(finalizer, candidate_id, 1_301).unwrap();
    assert_eq!(candidate.status, CandidateStatus::Finalized);
    assert_eq!(candidate.finalized_at, Some(1_301));
}

#[test]
fn challenge_after_deadline_is_rejected() {
    let (mut client, _, _) = setup();
    let proposer = Address::account(10);
    let candidate_id = propose(&mut client, proposer, 1, true, 60, 1_000).unwrap();
    let challenger = Address::account(11);
    assert_eq!(
        client.challenge(challenger, candidate_id, String::from("ipfs://late-challenge"), 1_061),
        Err(ContractError::ChallengeWindowClosed)
    );
}

#[test]
fn admin_can_update_factory_registration() {
    let (mut client, admin, _) = setup();
    let new_factory = Address::contract(20);
    client.set_factory(admin, new_factory).unwrap();
    assert_eq!(client.get_config().factory, new_factory);
}

#[test]
fn finalize_calls_resolve_market_on_market_contract() {
    let (mut client, _, market_contract) = setup();
    let proposer = Address::account(10);
    let candidate_id = propose(&mut client, proposer, 5, true, 60, 1_000).unwrap();
    let finalizer = Address::account(12);
    let candidate = client.finalize(finalizer, candidate_id, 1_061).unwrap();
    assert_eq!(candidate.status, CandidateStatus::Finalized);
    assert_eq!(candidate.market_id, 5);
    assert_eq!(candidate.outcome, true);
    assert!(candidate.finalized_at.is_some());
    // The finalized payload is what the market contract is asked to resolve with.
    assert_eq!(client.get_config().market_contract, market_contract);
    assert_eq!(candidate.signature, signature());
}

#[test]
fn non_admin_cannot_change_registration() {
    let (mut client, _, _) = setup();
    let stranger = Address::account(30);
    assert_eq!(client.set_factory(stranger, Address::contract(31)), Err(ContractError::NotAdmin));
    assert_eq!(
        client.set_market_contract(stranger, Address::contract(31)),
        Err(ContractError::NotAdmin)
    );
}

#[test]
fn initialize_twice_is_rejected_for_resolution() {
    let (mut client, admin, market_contract) = setup();
    assert_eq!(
        client.initialize(admin, Address::contract(2), market_contract),
        Err(ContractError::AlreadyInitialized)
    );
}

#[test]
fn challenge_window_bounds() {
    assert_eq!(validate_challenge_window(59), Err(ContractError::InvalidChallengeWindow));
    assert_eq!(validate_challenge_window(60), Ok(()));
    assert_eq!(validate_challenge_window(14 * 24 * 60 * 60), Ok(()));
    assert_eq!(
        validate_challenge_window(14 * 24 * 60 * 60 + 1),
        Err(ContractError::InvalidChallengeWindow)
    );
}

#[test]
fn uri_bounds() {
    assert_eq!(validate_uri(&String::new()), Err(ContractError::InvalidEvidenceUri));
    assert_eq!(validate_uri(&"a".repeat(512)), Ok(()));
    assert_eq!(validate_uri(&"a".repeat(513)), Err(ContractError::InvalidEvidenceUri));
}

#[test]
fn proposal_checks_come_before_the_signature_verdict() {
    let (mut client, _, _) = setup();
    let proposer = Address::account(10);
    assert_eq!(
        client.propose(proposer, 1, true, signature(), String::new(), 300, 0, Ok(())),
        Err(ContractError::InvalidEvidenceUri)
    );
    assert_eq!(
        client.propose(proposer, 1, true, signature(), evidence(), 10, 0, Ok(())),
        Err(ContractError::InvalidChallengeWindow)
    );
    assert_eq!(
        client.propose(
            proposer,
            1,
            true,
            signature(),
            evidence(),
            300,
            0,
            Err(ContractError::InvalidSignature)
        ),
        Err(ContractError::InvalidSignature)
    );
    assert_eq!(client.get_candidate_id_for_market(1), None);
}
