//! The command/query surface: the message types a host dispatches on, and
//! the response shapes the read-only queries produce.

use vstd::prelude::*;

verus! {

use crate::state::{ClaimStatus, ClaimV, LentStatus, VoteOption};

/// The single instantiation parameter: the voting window in seconds.
pub struct InstantiateMsg {
    pub voting_period: u64,
}

/// A mutating command, as the host delivers it. The caller identity comes
/// separately, supplied and trusted by the host.
pub enum ExecuteMsg {
    UpdateOrganizationName { name: String },
    AddOrganizationEmission { emissions: String },
    CreateClaim {
        longitudes: Vec<String>,
        latitudes: Vec<String>,
        time_started: u64,
        time_ended: u64,
        demanded_tokens: u128,
        ipfs_hashes: Vec<String>,
    },
    CreateLendToken { lender: String, amount: u128 },
    CastVote { claim_id: u64, vote: VoteOption },
    FinalizeVoting { claim_id: u64 },
    LendTokens { lend_request_id: u64, response: String },
    RepayTokens { lender: String, amount: u128 },
    VerifyEligibility { borrower: String, amount: u128, lender: String },
}

/// A read-only query. The paging fields differ in type between variants
/// (claims and requests page by id, the organization listing by address).
#[allow(inconsistent_fields)]
pub enum QueryMsg {
    GetConfig,
    UserLendRequests { user: String, start_after: Option<u64>, limit: Option<u32> },
    GetClaim { id: u64 },
    GetAllOrganizations { start_after: Option<String>, limit: Option<u32> },
    GetOrganization { address: String },
    GetTotalCarbonCredits,
    GetClaims { start_after: Option<u64>, limit: Option<u32> },
    GetClaimsByStatus { status: ClaimStatus, start_after: Option<u64>, limit: Option<u32> },
}

/// What a successful command reports back: the ids, outcomes and figures
/// the host turns into result attributes.
#[derive(Debug, PartialEq)]
pub enum ExecuteResponse {
    NameUpdated,
    EmissionAdded,
    ClaimCreated { claim_id: u64 },
    LendRequested { request_id: u64 },
    VoteCast,
    VotingFinalized { status: ClaimStatus },
    LendResponded { accepted: bool },
    TokensRepaid,
    EligibilityVerified { eligibility_score: u128, proof_hex: String },
}

/// The result of one query, one variant per query kind.
#[derive(Debug)]
pub enum QueryResponse {
    Config(ConfigResponse),
    Claim(ClaimResponse),
    Organization(OrganizationResponse),
    TotalCarbonCredits(TotalCarbonCreditsResponse),
    Claims(ClaimsResponse),
    Organizations(OrganizationsResponse),
    UserLendRequests(UserLendRequestsResponse),
}

/// The view of a [`ConfigResponse`].
pub ghost struct ConfigRespV {
    pub owner: Seq<char>,
    pub voting_period: nat,
    pub total_carbon_credits: nat,
}

/// The configuration, as a query result.
#[derive(Debug)]
pub struct ConfigResponse {
    pub owner: String,
    pub voting_period: u64,
    pub total_carbon_credits: u128,
}

impl View for ConfigResponse {
    type V = ConfigRespV;

    open spec fn view(&self) -> ConfigRespV {
        ConfigRespV {
            owner: self.owner@,
            voting_period: self.voting_period as nat,
            total_carbon_credits: self.total_carbon_credits as nat,
        }
    }
}

/// One claim, as a query result. Its view is a [`ClaimV`], like the stored
/// claim's: the response carries the same fields, with the tallies masked
/// to zero while voting is still open.
#[derive(Debug)]
pub struct ClaimResponse {
    pub id: u64,
    pub organization: String,
    pub longitudes: Vec<String>,
    pub latitudes: Vec<String>,
    pub time_started: u64,
    pub time_ended: u64,
    pub demanded_tokens: u128,
    pub ipfs_hashes: Vec<String>,
    pub status: ClaimStatus,
    pub voting_end_time: u64,
    pub yes_votes: u128,
    pub no_votes: u128,
}

impl View for ClaimResponse {
    type V = ClaimV;

    open spec fn view(&self) -> ClaimV {
        ClaimV {
            id: self.id as nat,
            organization: self.organization@,
            longitudes: self.longitudes.deep_view(),
            latitudes: self.latitudes.deep_view(),
            time_started: self.time_started as nat,
            time_ended: self.time_ended as nat,
            demanded_tokens: self.demanded_tokens as nat,
            ipfs_hashes: self.ipfs_hashes.deep_view(),
            status: self.status,
            voting_end_time: self.voting_end_time as nat,
            yes_votes: self.yes_votes as nat,
            no_votes: self.no_votes as nat,
        }
    }
}

impl DeepView for ClaimResponse {
    type V = ClaimV;

    open spec fn deep_view(&self) -> ClaimV {
        self.view()
    }
}

/// The view of an [`OrganizationResponse`].
pub ghost struct OrgRespV {
    pub address: Seq<char>,
    pub info: crate::state::OrgV,
}

/// One organization account with its address, as a query result. An
/// address that was never written reads as the all-zero default account.
#[derive(Debug)]
pub struct OrganizationResponse {
    pub address: String,
    pub reputation_score: u128,
    pub carbon_credits: u128,
    pub debt: u128,
    pub times_borrowed: u32,
    pub total_borrowed: u128,
    pub total_returned: u128,
    pub name: String,
    pub emissions: u128,
}

impl View for OrganizationResponse {
    type V = OrgRespV;

    open spec fn view(&self) -> OrgRespV {
        OrgRespV {
            address: self.address@,
            info: crate::state::OrgV {
                reputation_score: self.reputation_score as nat,
                carbon_credits: self.carbon_credits as nat,
                debt: self.debt as nat,
                times_borrowed: self.times_borrowed as nat,
                total_borrowed: self.total_borrowed as nat,
                total_returned: self.total_returned as nat,
                name: self.name@,
                emissions: self.emissions as nat,
            },
        }
    }
}

/// The global running total of minted credits, as a query result.
#[derive(Debug)]
pub struct TotalCarbonCreditsResponse {
    pub total: u128,
}

/// A page of claims.
#[derive(Debug)]
pub struct ClaimsResponse {
    pub claims: Vec<ClaimResponse>,
}

/// The view of an [`OrganizationListItem`].
pub ghost struct OrgItemV {
    pub address: Seq<char>,
    pub name: Seq<char>,
    pub reputation_score: nat,
    pub carbon_credits: nat,
}

/// One line of the organization listing.
#[derive(Debug)]
pub struct OrganizationListItem {
    pub address: String,
    pub name: String,
    pub reputation_score: u128,
    pub carbon_credits: u128,
}

impl View for OrganizationListItem {
    type V = OrgItemV;

    open spec fn view(&self) -> OrgItemV {
        OrgItemV {
            address: self.address@,
            name: self.name@,
            reputation_score: self.reputation_score as nat,
            carbon_credits: self.carbon_credits as nat,
        }
    }
}

impl DeepView for OrganizationListItem {
    type V = OrgItemV;

    open spec fn deep_view(&self) -> OrgItemV {
        self.view()
    }
}

/// A page of the organization listing, in ascending address order.
#[derive(Debug)]
pub struct OrganizationsResponse {
    pub organizations: Vec<OrganizationListItem>,
}

/// The view of a [`LendRequestResponse`].
pub ghost struct LendRespV {
    pub id: nat,
    pub borrower: Seq<char>,
    pub lender: Seq<char>,
    pub status: LentStatus,
    pub eligibility_score: nat,
    pub proof_data: Seq<char>,
    pub time: nat,
    pub amount: nat,
    pub role: Seq<char>,
}

/// One lend request as seen by one user, annotated with that user's role
/// in it: "borrower" or "lender".
#[derive(Debug)]
pub struct LendRequestResponse {
    pub id: u64,
    pub borrower: String,
    pub lender: String,
    pub status: LentStatus,
    pub eligibility_score: u128,
    pub proof_data: String,
    pub time: u64,
    pub amount: u128,
    pub role: String,
}

impl View for LendRequestResponse {
    type V = LendRespV;

    open spec fn view(&self) -> LendRespV {
        LendRespV {
            id: self.id as nat,
            borrower: self.borrower@,
            lender: self.lender@,
            status: self.status,
            eligibility_score: self.eligibility_score as nat,
            proof_data: self.proof_data@,
            time: self.time as nat,
            amount: self.amount as nat,
            role: self.role@,
        }
    }
}

impl DeepView for LendRequestResponse {
    type V = LendRespV;

    open spec fn deep_view(&self) -> LendRespV {
        self.view()
    }
}

/// The page of lend requests a user is party to.
#[derive(Debug)]
pub struct UserLendRequestsResponse {
    pub lend_requests: Vec<LendRequestResponse>,
}

} // verus!
