use carbon_ledger::error::ContractError;
use carbon_ledger::msg::{
    ClaimResponse, ExecuteMsg, ExecuteResponse, InstantiateMsg, OrganizationResponse,
    OrganizationsResponse, QueryMsg, QueryResponse, UserLendRequestsResponse,
};
use carbon_ledger::state::{ClaimStatus, LentStatus, State, VoteOption};

const BASE_TIME: u64 = 1_571_797_419;
const VOTING_END: u64 = BASE_TIME + 86400;

fn fresh_ledger(sender: &str, voting_period: u64) -> State {
    State::instantiate(sender, InstantiateMsg { voting_period })
}

fn get_claim(s: &State, now: u64, id: u64) -> ClaimResponse {
    match s.query(now, QueryMsg::GetClaim { id }).unwrap() {
        QueryResponse::Claim(c) => c,
        other => panic!("unexpected response: {:?}", other),
    }
}

fn get_organization(s: &State, now: u64, address: &str) -> OrganizationResponse {
    match s.query(now, QueryMsg::GetOrganization { address: address.to_string() }).unwrap() {
        QueryResponse::Organization(o) => o,
        other => panic!("unexpected response: {:?}", other),
    }
}

fn get_all_organizations(
    s: &State,
    now: u64,
    start_after: Option<&str>,
    limit: Option<u32>,
) -> OrganizationsResponse {
    let msg = QueryMsg::GetAllOrganizations {
        start_after: start_after.map(|a| a.to_string()),
        limit,
    };
    match s.query(now, msg).unwrap() {
        QueryResponse::Organizations(o) => o,
        other => panic!("unexpected response: {:?}", other),
    }
}

fn user_lend_requests(
    s: &State,
    now: u64,
    user: &str,
    start_after: Option<u64>,
    limit: Option<u32>,
) -> UserLendRequestsResponse {
    let msg = QueryMsg::UserLendRequests { user: user.to_string(), start_after, limit };
    match s.query(now, msg).unwrap() {
        QueryResponse::UserLendRequests(l) => l,
        other => panic!("unexpected response: {:?}", other),
    }
}

fn sample_claim_msg() -> ExecuteMsg {
    ExecuteMsg::CreateClaim {
        longitudes: vec!["123.456".to_string()],
        latitudes: vec!["78.90".to_string()],
        time_started: 1000,
        time_ended: 2000,
        demanded_tokens: 100,
        ipfs_hashes: vec!["QmHash1".to_string()],
    }
}

/// Creator ends up with 100 credits; borrower files a lend request for
/// `amount` against the creator.
fn lend_setup(amount: u128) -> (State, u64) {
    let mut s = fresh_ledger("creator", 86400);
    s.execute(BASE_TIME, "creator", sample_claim_msg()).unwrap();
    s.execute(
        BASE_TIME,
        "voter",
        ExecuteMsg::CastVote { claim_id: 0, vote: VoteOption::Yes },
    )
    .unwrap();
    let now2 = BASE_TIME + 86401;
    s.execute(now2, "creator", ExecuteMsg::FinalizeVoting { claim_id: 0 }).unwrap();
    s.execute(
        now2,
        "borrower",
        ExecuteMsg::CreateLendToken { lender: "creator".to_string(), amount },
    )
    .unwrap();
    (s, now2)
}

#[test]
fn double_vote_error_value_and_tallies_unchanged() {
    let mut s = fresh_ledger("creator", 86400);
    s.execute(BASE_TIME, "creator", sample_claim_msg()).unwrap();
    s.execute(
        BASE_TIME,
        "voter1",
        ExecuteMsg::CastVote { claim_id: 0, vote: VoteOption::Yes },
    )
    .unwrap();
    let res = s.execute(
        BASE_TIME,
        "voter1",
        ExecuteMsg::CastVote { claim_id: 0, vote: VoteOption::No },
    );
    assert_eq!(res, Err(ContractError::AlreadyVoted));
    let claim = get_claim(&s, VOTING_END, 0);
    assert_eq!(claim.yes_votes, 1);
    assert_eq!(claim.no_votes, 0);
}

#[test]
fn deadline_boundary_semantics() {
    let mut s = fresh_ledger("creator", 86400);
    s.execute(BASE_TIME, "creator", sample_claim_msg()).unwrap();
    // at the deadline instant: voting is still possible, finalizing is not
    let res = s.execute(
        VOTING_END,
        "voter1",
        ExecuteMsg::CastVote { claim_id: 0, vote: VoteOption::Yes },
    );
    assert!(res.is_ok());
    let res = s.execute(VOTING_END, "anyone", ExecuteMsg::FinalizeVoting { claim_id: 0 });
    assert_eq!(res, Err(ContractError::VotingNotEnded));
    // one second past: voting is closed, finalizing works
    let res = s.execute(
        VOTING_END + 1,
        "voter2",
        ExecuteMsg::CastVote { claim_id: 0, vote: VoteOption::No },
    );
    assert_eq!(res, Err(ContractError::VotingEnded));
    let res = s.execute(VOTING_END + 1, "anyone", ExecuteMsg::FinalizeVoting { claim_id: 0 });
    assert!(res.is_ok());
}

#[test]
fn tallies_hidden_until_deadline() {
    let mut s = fresh_ledger("creator", 86400);
    s.execute(BASE_TIME, "creator", sample_claim_msg()).unwrap();
    s.execute(
        BASE_TIME,
        "voter1",
        ExecuteMsg::CastVote { claim_id: 0, vote: VoteOption::Yes },
    )
    .unwrap();
    let before = get_claim(&s, VOTING_END - 1, 0);
    assert_eq!(before.yes_votes, 0);
    assert_eq!(before.no_votes, 0);
    let at_end = get_claim(&s, VOTING_END, 0);
    assert_eq!(at_end.yes_votes, 1);
}

#[test]
fn tie_finalizes_as_approved() {
    let mut s = fresh_ledger("creator", 86400);
    s.execute(BASE_TIME, "creator", sample_claim_msg()).unwrap();
    s.execute(
        BASE_TIME,
        "voter1",
        ExecuteMsg::CastVote { claim_id: 0, vote: VoteOption::Yes },
    )
    .unwrap();
    s.execute(
        BASE_TIME,
        "voter2",
        ExecuteMsg::CastVote { claim_id: 0, vote: VoteOption::No },
    )
    .unwrap();
    let res = s
        .execute(VOTING_END + 1, "anyone", ExecuteMsg::FinalizeVoting { claim_id: 0 })
        .unwrap();
    assert_eq!(res, ExecuteResponse::VotingFinalized { status: ClaimStatus::Approved });
    assert_eq!(get_claim(&s, VOTING_END + 1, 0).status, ClaimStatus::Approved);
}

#[test]
fn refinalization_is_rejected() {
    let mut s = fresh_ledger("creator", 86400);
    s.execute(BASE_TIME, "creator", sample_claim_msg()).unwrap();
    s.execute(VOTING_END + 1, "anyone", ExecuteMsg::FinalizeVoting { claim_id: 0 }).unwrap();
    let total_before = get_organization(&s, VOTING_END + 1, "creator").carbon_credits;
    let res = s.execute(VOTING_END + 1, "anyone", ExecuteMsg::FinalizeVoting { claim_id: 0 });
    assert_eq!(res, Err(ContractError::ClaimNotActive));
    let total_after = get_organization(&s, VOTING_END + 1, "creator").carbon_credits;
    assert_eq!(total_before, total_after);
}

#[test]
fn nonvoters_unaffected_by_finalization() {
    let mut s = fresh_ledger("creator", 86400);
    s.execute(
        BASE_TIME,
        "bystander",
        ExecuteMsg::UpdateOrganizationName { name: "Bystander Org".to_string() },
    )
    .unwrap();
    s.execute(BASE_TIME, "creator", sample_claim_msg()).unwrap();
    s.execute(
        BASE_TIME,
        "voter1",
        ExecuteMsg::CastVote { claim_id: 0, vote: VoteOption::Yes },
    )
    .unwrap();
    s.execute(VOTING_END + 1, "anyone", ExecuteMsg::FinalizeVoting { claim_id: 0 }).unwrap();
    let bystander = get_organization(&s, VOTING_END + 1, "bystander");
    assert_eq!(bystander.reputation_score, 0);
    assert_eq!(bystander.carbon_credits, 0);
    assert_eq!(bystander.name, "Bystander Org");
}

#[test]
fn accepted_lend_conserves_credit_sum() {
    let (mut s, now2) = lend_setup(50);
    let before_sum = get_organization(&s, now2, "creator").carbon_credits
        + get_organization(&s, now2, "borrower").carbon_credits;
    s.execute(
        now2,
        "creator",
        ExecuteMsg::LendTokens { lend_request_id: 0, response: "accepted".to_string() },
    )
    .unwrap();
    let after_sum = get_organization(&s, now2, "creator").carbon_credits
        + get_organization(&s, now2, "borrower").carbon_credits;
    assert_eq!(before_sum, 100);
    assert_eq!(after_sum, 100);
}

#[test]
fn denied_lend_moves_nothing() {
    let (mut s, now2) = lend_setup(50);
    let res = s
        .execute(
            now2,
            "creator",
            ExecuteMsg::LendTokens { lend_request_id: 0, response: "denied".to_string() },
        )
        .unwrap();
    assert_eq!(res, ExecuteResponse::LendResponded { accepted: false });
    assert_eq!(get_organization(&s, now2, "creator").carbon_credits, 100);
    assert_eq!(get_organization(&s, now2, "borrower").carbon_credits, 0);
    let reqs = user_lend_requests(&s, now2, "borrower", None, None);
    assert_eq!(reqs.lend_requests.len(), 1);
    assert_eq!(reqs.lend_requests[0].status, LentStatus::Rejected);
}

#[test]
fn lend_response_is_case_insensitive() {
    let (mut s, now2) = lend_setup(10);
    let res = s
        .execute(
            now2,
            "creator",
            ExecuteMsg::LendTokens { lend_request_id: 0, response: "ACCEPTED".to_string() },
        )
        .unwrap();
    assert_eq!(res, ExecuteResponse::LendResponded { accepted: true });
    s.execute(
        now2,
        "borrower",
        ExecuteMsg::CreateLendToken { lender: "creator".to_string(), amount: 5 },
    )
    .unwrap();
    let res = s
        .execute(
            now2,
            "creator",
            ExecuteMsg::LendTokens { lend_request_id: 1, response: "Denied".to_string() },
        )
        .unwrap();
    assert_eq!(res, ExecuteResponse::LendResponded { accepted: false });
}

#[test]
fn lend_response_error_paths() {
    let (mut s, now2) = lend_setup(50);
    let res = s.execute(
        now2,
        "creator",
        ExecuteMsg::LendTokens { lend_request_id: 7, response: "accepted".to_string() },
    );
    assert_eq!(res, Err(ContractError::RequestNotFound));
    let res = s.execute(
        now2,
        "someoneelse",
        ExecuteMsg::LendTokens { lend_request_id: 0, response: "accepted".to_string() },
    );
    assert_eq!(res, Err(ContractError::Unauthorized));
    let res = s.execute(
        now2,
        "creator",
        ExecuteMsg::LendTokens { lend_request_id: 0, response: "maybe".to_string() },
    );
    assert_eq!(res, Err(ContractError::InvalidResponse));
    s.execute(
        now2,
        "creator",
        ExecuteMsg::LendTokens { lend_request_id: 0, response: "denied".to_string() },
    )
    .unwrap();
    let res = s.execute(
        now2,
        "creator",
        ExecuteMsg::LendTokens { lend_request_id: 0, response: "accepted".to_string() },
    );
    assert_eq!(res, Err(ContractError::RequestNotActive));
}

#[test]
fn vote_on_missing_claim_fails() {
    let mut s = fresh_ledger("creator", 86400);
    let res = s.execute(
        BASE_TIME,
        "voter1",
        ExecuteMsg::CastVote { claim_id: 9, vote: VoteOption::Yes },
    );
    assert_eq!(res, Err(ContractError::ClaimNotFound));
}

#[test]
fn fresh_borrower_scores_fifty_with_exact_proof_artifact() {
    let (s, now2) = lend_setup(50);
    let reqs = user_lend_requests(&s, now2, "borrower", None, None);
    assert_eq!(reqs.lend_requests.len(), 1);
    let req = &reqs.lend_requests[0];
    assert_eq!(req.eligibility_score, 50);
    assert_eq!(req.role, "borrower");
    assert_eq!(req.proof_data, "mock_proof_30303030303031303030_eligibility_50");
    let as_lender = user_lend_requests(&s, now2, "creator", None, None);
    assert_eq!(as_lender.lend_requests.len(), 1);
    assert_eq!(as_lender.lend_requests[0].role, "lender");
    let stranger = user_lend_requests(&s, now2, "stranger", None, None);
    assert_eq!(stranger.lend_requests.len(), 0);
}

#[test]
fn lend_request_window_is_cut_before_role_filtering() {
    let mut s = fresh_ledger("creator", 86400);
    s.execute(
        BASE_TIME,
        "alice",
        ExecuteMsg::CreateLendToken { lender: "lender1".to_string(), amount: 1 },
    )
    .unwrap();
    s.execute(
        BASE_TIME,
        "bob",
        ExecuteMsg::CreateLendToken { lender: "lender2".to_string(), amount: 2 },
    )
    .unwrap();
    // the window of one request holds only alice's, which bob's query
    // then filters out
    let reqs = user_lend_requests(&s, BASE_TIME, "bob", None, Some(1));
    assert_eq!(reqs.lend_requests.len(), 0);
    let reqs = user_lend_requests(&s, BASE_TIME, "bob", Some(0), Some(1));
    assert_eq!(reqs.lend_requests.len(), 1);
    assert_eq!(reqs.lend_requests[0].id, 1);
}

#[test]
fn emissions_lower_the_eligibility_score() {
    let mut s = fresh_ledger("creator", 86400);
    s.execute(
        BASE_TIME,
        "borrower",
        ExecuteMsg::AddOrganizationEmission { emissions: "100".to_string() },
    )
    .unwrap();
    assert_eq!(get_organization(&s, BASE_TIME, "borrower").emissions, 100);
    s.execute(
        BASE_TIME,
        "borrower",
        ExecuteMsg::CreateLendToken { lender: "creator".to_string(), amount: 5 },
    )
    .unwrap();
    let reqs = user_lend_requests(&s, BASE_TIME, "borrower", None, None);
    assert_eq!(reqs.lend_requests[0].eligibility_score, 40);
}

#[test]
fn zero_score_borrower_is_not_eligible() {
    let mut s = fresh_ledger("creator", 86400);
    s.execute(
        BASE_TIME,
        "borrower",
        ExecuteMsg::AddOrganizationEmission { emissions: "500".to_string() },
    )
    .unwrap();
    let res = s.execute(
        BASE_TIME,
        "anyone",
        ExecuteMsg::VerifyEligibility {
            borrower: "borrower".to_string(),
            amount: 5,
            lender: "creator".to_string(),
        },
    );
    assert_eq!(res, Err(ContractError::BorrowerNotEligible));
}

#[test]
fn verify_eligibility_reports_exact_attestation_hex() {
    let mut s = fresh_ledger("creator", 86400);
    let res = s
        .execute(
            BASE_TIME,
            "anyone",
            ExecuteMsg::VerifyEligibility {
                borrower: "borrower".to_string(),
                amount: 5,
                lender: "creator".to_string(),
            },
        )
        .unwrap();
    assert_eq!(
        res,
        ExecuteResponse::EligibilityVerified {
            eligibility_score: 50,
            proof_hex: "30303030303030303530".to_string(),
        },
    );
}

#[test]
fn emission_input_must_be_a_decimal_numeral() {
    let mut s = fresh_ledger("creator", 86400);
    let res = s.execute(
        BASE_TIME,
        "creator",
        ExecuteMsg::AddOrganizationEmission { emissions: "12x3".to_string() },
    );
    assert_eq!(res, Err(ContractError::InvalidNumericInput));
    let res = s.execute(
        BASE_TIME,
        "creator",
        ExecuteMsg::AddOrganizationEmission { emissions: "".to_string() },
    );
    assert_eq!(res, Err(ContractError::InvalidNumericInput));
    let res = s.execute(
        BASE_TIME,
        "creator",
        ExecuteMsg::AddOrganizationEmission {
            emissions: "340282366920938463463374607431768211456".to_string(),
        },
    );
    assert_eq!(res, Err(ContractError::InvalidNumericInput));
}

#[test]
fn emission_total_overflow_fails_hard() {
    let mut s = fresh_ledger("creator", 86400);
    s.execute(
        BASE_TIME,
        "creator",
        ExecuteMsg::AddOrganizationEmission {
            emissions: "340282366920938463463374607431768211455".to_string(),
        },
    )
    .unwrap();
    let res = s.execute(
        BASE_TIME,
        "creator",
        ExecuteMsg::AddOrganizationEmission { emissions: "1".to_string() },
    );
    assert_eq!(res, Err(ContractError::Overflow));
}

#[test]
fn oversized_ledger_figures_fail_the_score() {
    let mut s = fresh_ledger("creator", 86400);
    s.execute(
        BASE_TIME,
        "borrower",
        ExecuteMsg::AddOrganizationEmission { emissions: "4294967296".to_string() },
    )
    .unwrap();
    let res = s.execute(
        BASE_TIME,
        "borrower",
        ExecuteMsg::CreateLendToken { lender: "creator".to_string(), amount: 5 },
    );
    assert_eq!(res, Err(ContractError::Overflow));
}

#[test]
fn organization_page_is_contiguous_after_missing_key() {
    let mut s = fresh_ledger("creator", 86400);
    for (addr, name) in [("org1", "First"), ("org2", "Second"), ("org3", "Third")] {
        s.execute(
            BASE_TIME,
            addr,
            ExecuteMsg::UpdateOrganizationName { name: name.to_string() },
        )
        .unwrap();
    }
    // "org10" sorts between "org1" and "org2" and is not a stored key
    let page = get_all_organizations(&s, BASE_TIME, Some("org10"), Some(10));
    assert_eq!(page.organizations.len(), 2);
    assert_eq!(page.organizations[0].address, "org2");
    assert_eq!(page.organizations[1].address, "org3");
    let empty_page = get_all_organizations(&s, BASE_TIME, Some("org3"), Some(0));
    assert_eq!(empty_page.organizations.len(), 0);
}

#[test]
fn majority_voters_each_gain_one_reputation_point() {
    let mut s = fresh_ledger("creator", 86400);
    s.execute(BASE_TIME, "creator", sample_claim_msg()).unwrap();
    for (voter, vote) in [
        ("voter1", VoteOption::Yes),
        ("voter2", VoteOption::No),
        ("voter3", VoteOption::Yes),
    ] {
        s.execute(BASE_TIME, voter, ExecuteMsg::CastVote { claim_id: 0, vote }).unwrap();
    }
    s.execute(BASE_TIME + 86401, "anyone", ExecuteMsg::FinalizeVoting { claim_id: 0 }).unwrap();
    let now2 = BASE_TIME + 86401;
    assert_eq!(get_organization(&s, now2, "voter1").reputation_score, 1);
    assert_eq!(get_organization(&s, now2, "voter2").reputation_score, 0);
    assert_eq!(get_organization(&s, now2, "voter3").reputation_score, 1);
    assert_eq!(get_organization(&s, now2, "creator").carbon_credits, 100);
}

#[test]
fn repay_requires_debt_and_credits() {
    let (mut s, now2) = lend_setup(50);
    s.execute(
        now2,
        "creator",
        ExecuteMsg::LendTokens { lend_request_id: 0, response: "accepted".to_string() },
    )
    .unwrap();
    // more than the outstanding debt
    let res = s.execute(
        now2,
        "borrower",
        ExecuteMsg::RepayTokens { lender: "creator".to_string(), amount: 60 },
    );
    assert_eq!(res, Err(ContractError::NotEnoughCredits));
    // partial repayments down to zero work
    s.execute(
        now2,
        "borrower",
        ExecuteMsg::RepayTokens { lender: "creator".to_string(), amount: 50 },
    )
    .unwrap();
    let borrower = get_organization(&s, now2, "borrower");
    assert_eq!(borrower.debt, 0);
    assert_eq!(borrower.total_returned, 50);
}
