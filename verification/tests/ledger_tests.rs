use carbon_ledger::error::ContractError;
use carbon_ledger::msg::{
    ClaimResponse, ClaimsResponse, ConfigResponse, ExecuteMsg, ExecuteResponse, InstantiateMsg,
    OrganizationResponse, OrganizationsResponse, QueryMsg, QueryResponse,
    TotalCarbonCreditsResponse,
};
use carbon_ledger::state::{ClaimStatus, State, VoteOption};

const BASE_TIME: u64 = 1_571_797_419;

fn fresh_ledger(sender: &str, voting_period: u64) -> State {
    State::instantiate(sender, InstantiateMsg { voting_period })
}

fn get_config(s: &State, now: u64) -> ConfigResponse {
    match s.query(now, QueryMsg::GetConfig).unwrap() {
        QueryResponse::Config(c) => c,
        other => panic!("unexpected response: {:?}", other),
    }
}

fn get_claim(s: &State, now: u64, id: u64) -> ClaimResponse {
    match s.query(now, QueryMsg::GetClaim { id }).unwrap() {
        QueryResponse::Claim(c) => c,
        other => panic!("unexpected response: {:?}", other),
    }
}

fn get_claims(s: &State, now: u64, start_after: Option<u64>, limit: Option<u32>) -> ClaimsResponse {
    match s.query(now, QueryMsg::GetClaims { start_after, limit }).unwrap() {
        QueryResponse::Claims(c) => c,
        other => panic!("unexpected response: {:?}", other),
    }
}

fn get_claims_by_status(
    s: &State,
    now: u64,
    status: ClaimStatus,
    start_after: Option<u64>,
    limit: Option<u32>,
) -> ClaimsResponse {
    match s.query(now, QueryMsg::GetClaimsByStatus { status, start_after, limit }).unwrap() {
        QueryResponse::Claims(c) => c,
        other => panic!("unexpected response: {:?}", other),
    }
}

fn get_organization(s: &State, now: u64, address: &str) -> OrganizationResponse {
    match s.query(now, QueryMsg::GetOrganization { address: address.to_string() }).unwrap() {
        QueryResponse::Organization(o) => o,
        other => panic!("unexpected response: {:?}", other),
    }
}

fn get_all_organizations(
    s: &State,
    now: u64,
    start_after: Option<&str>,
    limit: Option<u32>,
) -> OrganizationsResponse {
    let msg = QueryMsg::GetAllOrganizations {
        start_after: start_after.map(|a| a.to_string()),
        limit,
    };
    match s.query(now, msg).unwrap() {
        QueryResponse::Organizations(o) => o,
        other => panic!("unexpected response: {:?}", other),
    }
}

fn get_total(s: &State, now: u64) -> TotalCarbonCreditsResponse {
    match s.query(now, QueryMsg::GetTotalCarbonCredits).unwrap() {
        QueryResponse::TotalCarbonCredits(t) => t,
        other => panic!("unexpected response: {:?}", other),
    }
}

fn sample_claim_msg() -> ExecuteMsg {
    ExecuteMsg::CreateClaim {
        longitudes: vec!["123.456".to_string()],
        latitudes: vec!["78.90".to_string()],
        time_started: 1000,
        time_ended: 2000,
        demanded_tokens: 100,
        ipfs_hashes: vec!["QmHash1".to_string()],
    }
}

/// Funds the creator with 100 credits through an approved claim, then has
/// the borrower take a loan of `amount` accepted by the creator. Returns
/// the state and the time after the claim's deadline.
fn lend_setup(amount: u128) -> (State, u64) {
    let mut s = fresh_ledger("creator", 86400);
    s.execute(BASE_TIME, "creator", sample_claim_msg()).unwrap();
    s.execute(
        BASE_TIME,
        "voter",
        ExecuteMsg::CastVote { claim_id: 0, vote: VoteOption::Yes },
    )
    .unwrap();
    let now2 = BASE_TIME + 86401;
    s.execute(now2, "creator", ExecuteMsg::FinalizeVoting { claim_id: 0 }).unwrap();
    s.execute(
        now2,
        "borrower",
        ExecuteMsg::CreateLendToken { lender: "creator".to_string(), amount },
    )
    .unwrap();
    (s, now2)
}

#[test]
fn proper_initialization() {
    let s = fresh_ledger("creator", 86400);
    let config_res = get_config(&s, BASE_TIME);
    assert_eq!(config_res.owner, "creator");
    assert_eq!(config_res.voting_period, 86400);
    assert_eq!(config_res.total_carbon_credits, 0);
}

#[test]
fn create_claim_works() {
    let mut s = fresh_ledger("creator", 86400);
    let res = s.execute(BASE_TIME, "creator", sample_claim_msg()).unwrap();
    assert_eq!(res, ExecuteResponse::ClaimCreated { claim_id: 0 });
    let claim_res = get_claim(&s, BASE_TIME, 0);
    assert_eq!(claim_res.id, 0);
    assert_eq!(claim_res.organization, "creator");
    assert_eq!(claim_res.demanded_tokens, 100);
    assert_eq!(claim_res.status, ClaimStatus::Active);
    assert_eq!(claim_res.yes_votes, 0);
    assert_eq!(claim_res.no_votes, 0);
}

#[test]
fn voting_works() {
    let mut s = fresh_ledger("creator", 86400);
    s.execute(BASE_TIME, "creator", sample_claim_msg()).unwrap();
    s.execute(
        BASE_TIME,
        "voter1",
        ExecuteMsg::CastVote { claim_id: 0, vote: VoteOption::Yes },
    )
    .unwrap();
    s.execute(
        BASE_TIME,
        "voter2",
        ExecuteMsg::CastVote { claim_id: 0, vote: VoteOption::No },
    )
    .unwrap();
    s.execute(
        BASE_TIME,
        "voter3",
        ExecuteMsg::CastVote { claim_id: 0, vote: VoteOption::Yes },
    )
    .unwrap();
    let now2 = BASE_TIME + 86401;
    s.execute(now2, "anyone", ExecuteMsg::FinalizeVoting { claim_id: 0 }).unwrap();
    let claim_res = get_claim(&s, now2, 0);
    assert_eq!(claim_res.yes_votes, 2);
    assert_eq!(claim_res.no_votes, 1);
    assert_eq!(claim_res.status, ClaimStatus::Approved);
    let total_res = get_total(&s, now2);
    assert_eq!(total_res.total, 100);
    let org_res = get_organization(&s, now2, "creator");
    assert_eq!(org_res.carbon_credits, 100);
    let voter1_res = get_organization(&s, now2, "voter1");
    assert_eq!(voter1_res.reputation_score, 1);
    let voter2_res = get_organization(&s, now2, "voter2");
    assert_eq!(voter2_res.reputation_score, 0);
}

#[test]
fn lending_works() {
    let (mut s, now2) = lend_setup(50);
    let res = s
        .execute(
            now2,
            "creator",
            ExecuteMsg::LendTokens { lend_request_id: 0, response: "accepted".to_string() },
        )
        .unwrap();
    assert_eq!(res, ExecuteResponse::LendResponded { accepted: true });
    let creator_res = get_organization(&s, now2, "creator");
    assert_eq!(creator_res.carbon_credits, 50);
    let borrower_res = get_organization(&s, now2, "borrower");
    assert_eq!(borrower_res.carbon_credits, 50);
    assert_eq!(borrower_res.debt, 50);
    assert_eq!(borrower_res.times_borrowed, 1);
    assert_eq!(borrower_res.total_borrowed, 50);
    s.execute(
        now2,
        "borrower",
        ExecuteMsg::RepayTokens { lender: "creator".to_string(), amount: 30 },
    )
    .unwrap();
    let creator_res = get_organization(&s, now2, "creator");
    assert_eq!(creator_res.carbon_credits, 80);
    let borrower_res = get_organization(&s, now2, "borrower");
    assert_eq!(borrower_res.carbon_credits, 20);
    assert_eq!(borrower_res.debt, 20);
    assert_eq!(borrower_res.total_returned, 30);
}

#[test]
fn query_claims_works() {
    let mut s = fresh_ledger("creator", 86400);
    for i in 0..3u64 {
        let msg = ExecuteMsg::CreateClaim {
            longitudes: vec![format!("123.{}", i)],
            latitudes: vec![format!("78.{}", i)],
            time_started: 1000 + i,
            time_ended: 2000 + i,
            demanded_tokens: 100 + i as u128,
            ipfs_hashes: vec![format!("QmHash{}", i)],
        };
        s.execute(BASE_TIME, "creator", msg).unwrap();
    }
    let claims_res = get_claims(&s, BASE_TIME, None, None);
    assert_eq!(claims_res.claims.len(), 3);
    assert_eq!(claims_res.claims[0].id, 0);
    assert_eq!(claims_res.claims[1].id, 1);
    assert_eq!(claims_res.claims[2].id, 2);
    let paginated_res = get_claims(&s, BASE_TIME, Some(1), Some(1));
    assert_eq!(paginated_res.claims.len(), 1);
    assert_eq!(paginated_res.claims[0].id, 2);
    s.execute(
        BASE_TIME,
        "creator",
        ExecuteMsg::CastVote { claim_id: 1, vote: VoteOption::Yes },
    )
    .unwrap();
    let now2 = BASE_TIME + 86401;
    s.execute(now2, "creator", ExecuteMsg::FinalizeVoting { claim_id: 1 }).unwrap();
    let status_res = get_claims_by_status(&s, now2, ClaimStatus::Approved, None, None);
    assert_eq!(status_res.claims.len(), 1);
    assert_eq!(status_res.claims[0].id, 1);
    assert_eq!(status_res.claims[0].status, ClaimStatus::Approved);
    let active_res = get_claims_by_status(&s, now2, ClaimStatus::Active, None, None);
    assert_eq!(active_res.claims.len(), 2);
    assert!(active_res.claims.iter().all(|c| c.status == ClaimStatus::Active));
}

#[test]
fn test_double_voting_prevention() {
    let mut s = fresh_ledger("creator", 86400);
    s.execute(BASE_TIME, "creator", sample_claim_msg()).unwrap();
    s.execute(
        BASE_TIME,
        "voter1",
        ExecuteMsg::CastVote { claim_id: 0, vote: VoteOption::Yes },
    )
    .unwrap();
    let res = s.execute(
        BASE_TIME,
        "voter1",
        ExecuteMsg::CastVote { claim_id: 0, vote: VoteOption::Yes },
    );
    assert!(res.is_err());
}

#[test]
fn test_voting_period_enforcement() {
    let mut s = fresh_ledger("creator", 86400);
    s.execute(BASE_TIME, "creator", sample_claim_msg()).unwrap();
    let res = s.execute(BASE_TIME, "creator", ExecuteMsg::FinalizeVoting { claim_id: 0 });
    assert!(res.is_err());
}

#[test]
fn test_reputation_boost_for_correct_voters() {
    let mut s = fresh_ledger("creator", 86400);
    s.execute(BASE_TIME, "creator", sample_claim_msg()).unwrap();
    s.execute(
        BASE_TIME,
        "voter1",
        ExecuteMsg::CastVote { claim_id: 0, vote: VoteOption::Yes },
    )
    .unwrap();
    s.execute(
        BASE_TIME,
        "voter2",
        ExecuteMsg::CastVote { claim_id: 0, vote: VoteOption::No },
    )
    .unwrap();
    let now2 = BASE_TIME + 86401;
    s.execute(now2, "creator", ExecuteMsg::FinalizeVoting { claim_id: 0 }).unwrap();
    let voter1_res = get_organization(&s, now2, "voter1");
    assert_eq!(voter1_res.reputation_score, 1);
    let voter2_res = get_organization(&s, now2, "voter2");
    assert_eq!(voter2_res.reputation_score, 0);
}

#[test]
fn test_lending_edge_cases() {
    let (mut s, now2) = lend_setup(150);
    let res = s.execute(
        now2,
        "creator",
        ExecuteMsg::LendTokens { lend_request_id: 0, response: "accepted".to_string() },
    );
    assert!(res.is_err());
    let res = s.execute(
        now2,
        "borrower",
        ExecuteMsg::RepayTokens { lender: "creator".to_string(), amount: 150 },
    );
    assert!(res.is_err());
}

#[test]
fn update_organization_name() {
    let mut s = fresh_ledger("creator", 86400);
    let org_response = get_organization(&s, BASE_TIME, "creator");
    assert_eq!(org_response.address, "creator");
    assert_eq!(org_response.reputation_score, 0);
    assert_eq!(org_response.carbon_credits, 0);
    assert_eq!(org_response.debt, 0);
    s.execute(
        BASE_TIME,
        "creator",
        ExecuteMsg::UpdateOrganizationName { name: "Green Earth Foundation".to_string() },
    )
    .unwrap();
    let orgs_response = get_all_organizations(&s, BASE_TIME, None, None);
    assert_eq!(orgs_response.organizations.len(), 1);
    assert_eq!(orgs_response.organizations[0].address, "creator");
    assert_eq!(orgs_response.organizations[0].name, "Green Earth Foundation");
    assert_eq!(orgs_response.organizations[0].reputation_score, 0);
}

#[test]
fn query_all_organizations_pagination() {
    let mut s = fresh_ledger("creator", 86400);
    s.execute(
        BASE_TIME,
        "creator",
        ExecuteMsg::UpdateOrganizationName { name: "Creator Org".to_string() },
    )
    .unwrap();
    let org_addresses = vec!["org1", "org2", "org3", "org4", "org5"];
    let org_names = vec!["First Org", "Second Org", "Third Org", "Fourth Org", "Fifth Org"];
    for i in 0..5 {
        s.execute(
            BASE_TIME,
            org_addresses[i],
            ExecuteMsg::UpdateOrganizationName { name: org_names[i].to_string() },
        )
        .unwrap();
    }
    let orgs_response = get_all_organizations(&s, BASE_TIME, None, None);
    assert_eq!(orgs_response.organizations.len(), 6);
    let page1 = get_all_organizations(&s, BASE_TIME, None, Some(2));
    assert_eq!(page1.organizations.len(), 2);
    assert_eq!(page1.organizations[0].address, "creator");
    assert_eq!(page1.organizations[1].address, "org1");
    let page2 = get_all_organizations(&s, BASE_TIME, Some("org1"), Some(2));
    assert_eq!(page2.organizations.len(), 2);
    assert_eq!(page2.organizations[0].address, "org2");
    assert_eq!(page2.organizations[1].address, "org3");
    let page3 = get_all_organizations(&s, BASE_TIME, Some("org3"), Some(2));
    assert_eq!(page3.organizations.len(), 2);
    assert_eq!(page3.organizations[0].address, "org4");
    assert_eq!(page3.organizations[1].address, "org5");
}

#[test]
fn config_error_descriptions_are_stable() {
    assert_eq!(ContractError::Unauthorized.describe(), "Unauthorized");
    assert_eq!(ContractError::VotingEnded.describe(), "Voting period has ended");
    assert_eq!(ContractError::Overflow.describe(), "Overflow");
}
