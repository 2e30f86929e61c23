//! The read-only projections over the ledger: single lookups and the
//! paginated listings. Every page is ordered by key ascending; `limit`
//! defaults to 30 entries.

use vstd::prelude::*;

verus! {

use crate::error::ContractError;
use crate::msg::{
    ClaimResponse, ClaimsResponse, ConfigResponse, LendRequestResponse, LendRespV,
    OrganizationListItem, OrganizationsResponse, OrganizationResponse, OrgItemV,
    QueryMsg, QueryResponse, TotalCarbonCreditsResponse, UserLendRequestsResponse,
};
use crate::state::{
    org_lookup, Claim, ClaimStatus, ClaimV, LendRequestV, OrgEntryV, State,
};
use crate::text::{compare_str, lex_lt, lemma_lex_transitive, StrCmp};

/// How many entries a listing returns when the caller gives no limit.
pub const DEFAULT_PAGE_LIMIT: u32 = 30;

/// The first index of a page: everything up to and including `start_after`
/// is skipped.
pub open spec fn window_start(start_after: Option<u64>) -> int {
    match start_after {
        Option::None => 0,
        Option::Some(s) => s as int + 1,
    }
}

/// The page size a caller asked for, or the default.
pub open spec fn query_limit(limit: Option<u32>) -> int {
    match limit {
        Option::None => DEFAULT_PAGE_LIMIT as int,
        Option::Some(l) => l as int,
    }
}

/// The page of an id-indexed sequence selected by `start_after` and
/// `limit`.
pub open spec fn page_of<T>(s: Seq<T>, start_after: Option<u64>, limit: Option<u32>) -> Seq<T> {
    let n = s.len() as int;
    let start = window_start(start_after);
    let lim = query_limit(limit);
    let lo = if start <= n {
        start
    } else {
        n
    };
    let hi = if start + lim <= n {
        start + lim
    } else {
        n
    };
    s.subrange(lo, hi)
}

/// A claim as a query shows it: tallies are visible only once
/// `now >= voting_end_time`; before that they read as zero.
pub open spec fn masked_claim(c: ClaimV, now: nat) -> ClaimV {
    if now >= c.voting_end_time {
        c
    } else {
        (ClaimV { yes_votes: 0, no_votes: 0, ..c })
    }
}

/// A lend request annotated with `user`'s role in it; the borrower role
/// wins when the user is both parties.
pub open spec fn lend_resp_of(q: LendRequestV, user: Seq<char>) -> LendRespV {
    LendRespV {
        id: q.id,
        borrower: q.borrower,
        lender: q.lender,
        status: q.status,
        eligibility_score: q.eligibility_score,
        proof_data: q.proof_data,
        time: q.time,
        amount: q.amount,
        role: if q.borrower == user {
            "borrower"@
        } else {
            "lender"@
        },
    }
}

/// Whether `user` is a party to the request.
pub open spec fn involves_user(q: LendRequestV, user: Seq<char>) -> bool {
    q.borrower == user || q.lender == user
}

/// How many leading entries of the listing have an address at or before
/// `start`: the page after `start` begins here.
pub open spec fn cut_after(v: Seq<OrgEntryV>, start: Seq<char>) -> int
    decreases v.len(),
{
    if v.len() == 0 {
        0
    } else if lex_lt(start, v[0].address) {
        0
    } else {
        1 + cut_after(v.skip(1), start)
    }
}

/// The cut is the first index whose address lies strictly after `start`.
pub proof fn lemma_cut_after_at(v: Seq<OrgEntryV>, start: Seq<char>, i: int)
    requires
        0 <= i <= v.len(),
        forall|k: int| 0 <= k < i ==> !lex_lt(start, (#[trigger] v[k]).address),
        i < v.len() ==> lex_lt(start, v[i].address),
    ensures
        cut_after(v, start) == i,
    decreases v.len(),
{
    if v.len() > 0 {
        if i == 0 {
        } else {
            assert(!lex_lt(start, v[0].address));
            assert forall|k: int| 0 <= k < i - 1 implies !lex_lt(
                start,
                (#[trigger] v.skip(1)[k]).address,
            ) by {
                assert(v.skip(1)[k] == v[k + 1]);
            }
            if i - 1 < v.skip(1).len() {
                assert(v.skip(1)[i - 1] == v[i]);
            }
            lemma_cut_after_at(v.skip(1), start, i - 1);
        }
    }
}

/// In a sorted listing, everything from the cut on lies strictly after
/// `start`, and nothing before it does.
pub proof fn lemma_cut_after_splits(v: Seq<OrgEntryV>, start: Seq<char>)
    requires
        crate::state::orgs_sorted(v),
    ensures
        0 <= cut_after(v, start) <= v.len(),
        forall|k: int|
            0 <= k < cut_after(v, start) ==> !lex_lt(start, (#[trigger] v[k]).address),
        forall|k: int|
            cut_after(v, start) <= k < v.len() ==> lex_lt(start, (#[trigger] v[k]).address),
    decreases v.len(),
{
    let c = cut_after(v, start);
    if v.len() > 0 && lex_lt(start, v[0].address) {
        assert forall|k: int| c <= k < v.len() implies lex_lt(
            start,
            (#[trigger] v[k]).address,
        ) by {
            if k > 0 {
                lemma_lex_transitive(start, v[0].address, v[k].address);
            }
        }
    }
    if v.len() > 0 && !lex_lt(start, v[0].address) {
        assert forall|i: int, j: int|
            0 <= i < j < v.skip(1).len() implies lex_lt(
            (#[trigger] v.skip(1)[i]).address,
            (#[trigger] v.skip(1)[j]).address,
        ) by {
            assert(v.skip(1)[i] == v[i + 1] && v.skip(1)[j] == v[j + 1]);
        }
        lemma_cut_after_splits(v.skip(1), start);
        assert forall|k: int| 0 <= k < c implies !lex_lt(start, (#[trigger] v[k]).address) by {
            if k > 0 {
                assert(v.skip(1)[k - 1] == v[k]);
            }
        }
        assert forall|k: int| c <= k < v.len() implies lex_lt(
            start,
            (#[trigger] v[k]).address,
        ) by {
            assert(v.skip(1)[k - 1] == v[k]);
        }
    }
}

/// The line of the listing for one stored entry.
pub open spec fn org_item_of(e: OrgEntryV) -> OrgItemV {
    OrgItemV {
        address: e.address,
        name: e.info.name,
        reputation_score: e.info.reputation_score,
        carbon_credits: e.info.carbon_credits,
    }
}

/// Copies a list of strings.
pub(crate) fn clone_strings(v: &Vec<String>) -> (r: Vec<String>)
    ensures
        r.deep_view() == v.deep_view(),
{
    let ghost sv = v.deep_view();
    let len = v.len();
    let mut r: Vec<String> = Vec::new();
    let mut i: usize = 0;
    while i < len
        invariant
            len == sv.len(),
            sv == v.deep_view(),
            i <= len,
            r.deep_view().len() == i as int,
            forall|k: int| 0 <= k < i ==> r.deep_view()[k] == sv[k],
        decreases len - i,
    {
        r.push(v[i].clone());
        i = i + 1;
    }
    proof {
        assert(r.deep_view() =~= sv);
    }
    r
}

/// Renders one claim as a response, masking the tallies while voting is
/// open.
fn make_claim_response(c: &Claim, now: u64) -> (r: ClaimResponse)
    ensures
        r@ == masked_claim(c@, now as nat),
{
    let visible = now >= c.voting_end_time;
    ClaimResponse {
        id: c.id,
        organization: c.organization.clone(),
        longitudes: clone_strings(&c.longitudes),
        latitudes: clone_strings(&c.latitudes),
        time_started: c.time_started,
        time_ended: c.time_ended,
        demanded_tokens: c.demanded_tokens,
        ipfs_hashes: clone_strings(&c.ipfs_hashes),
        status: c.status,
        voting_end_time: c.voting_end_time,
        yes_votes: if visible {
            c.yes_votes
        } else {
            0
        },
        no_votes: if visible {
            c.no_votes
        } else {
            0
        },
    }
}

impl State {
    /// Reads the configuration.
    pub fn query_config(&self) -> (r: ConfigResponse)
        ensures
            r@.owner == self.config@.owner,
            r@.voting_period == self.config@.voting_period,
            r@.total_carbon_credits == self.config@.total_carbon_credits,
    {
        ConfigResponse {
            owner: self.config.owner.clone(),
            voting_period: self.config.voting_period,
            total_carbon_credits: self.config.total_carbon_credits,
        }
    }

    /// Reads the global running total of minted credits.
    pub fn query_total_carbon_credits(&self) -> (r: TotalCarbonCreditsResponse)
        ensures
            r.total as nat == self.config@.total_carbon_credits,
    {
        TotalCarbonCreditsResponse { total: self.config.total_carbon_credits }
    }

    /// Reads one claim; its tallies are masked to zero until
    /// `now >= voting_end_time`.
    pub fn query_claim(&self, now: u64, id: u64) -> (r: Result<ClaimResponse, ContractError>)
        requires
            self.wf(),
        ensures
            match r {
                Ok(resp) => (id as nat) < self.claims_v().len() && resp@ == masked_claim(
                    self.claims_v()[id as int],
                    now as nat,
                ),
                Err(e) => e == ContractError::ClaimNotFound && (id as nat)
                    >= self.claims_v().len(),
            },
    {
        if id >= self.claims.len() as u64 {
            return Err(ContractError::ClaimNotFound);
        }
        Ok(make_claim_response(&self.claims[id as usize], now))
    }

    /// Reads one organization account; an address never written reads as
    /// the all-zero default.
    pub fn query_organization(&self, address: &str) -> (r: OrganizationResponse)
        requires
            self.wf(),
        ensures
            r@.address == address@,
            r@.info == self.org_of(address@),
    {
        let info = crate::state::get_org(&self.organizations, address);
        OrganizationResponse {
            address: address.to_owned(),
            reputation_score: info.reputation_score,
            carbon_credits: info.carbon_credits,
            debt: info.debt,
            times_borrowed: info.times_borrowed,
            total_borrowed: info.total_borrowed,
            total_returned: info.total_returned,
            name: info.name,
            emissions: info.emissions,
        }
    }

    /// Lists claims with ids after `start_after`, at most `limit` of them
    /// (30 when absent), in ascending id order, each masked like
    /// [`State::query_claim`].
    pub fn query_claims(&self, now: u64, start_after: Option<u64>, limit: Option<u32>) -> (r:
        ClaimsResponse)
        requires
            self.wf(),
        ensures
            r.claims.deep_view() == page_of(self.claims_v(), start_after, limit).map_values(
                |c: ClaimV| masked_claim(c, now as nat),
            ),
    {
        let ghost cv = self.claims_v();
        let n = self.claims.len();
        let start_idx: usize = match start_after {
            Option::None => 0,
            Option::Some(s) => if s >= n as u64 {
                n
            } else {
                (s as usize) + 1
            },
        };
        let lim: usize = match limit {
            Option::None => 30,
            Option::Some(l) => l as usize,
        };
        let mut out: Vec<ClaimResponse> = Vec::new();
        let mut i: usize = start_idx;
        while i < n && out.len() < lim
            invariant
                n == cv.len(),
                cv == self.claims_v(),
                start_idx <= i <= n,
                out.deep_view().len() == i - start_idx,
                out.deep_view().len() <= lim,
                forall|k: int|
                    0 <= k < out.deep_view().len() ==> out.deep_view()[k] == masked_claim(
                        cv[start_idx + k],
                        now as nat,
                    ),
            decreases n - i,
        {
            let resp = make_claim_response(&self.claims[i], now);
            let ghost pre_out = out.deep_view();
            let ghost rv = resp@;
            out.push(resp);
            i = i + 1;
            proof {
                assert(out.deep_view() =~= pre_out.push(rv));
            }
        }
        proof {
            let page = page_of(cv, start_after, limit);
            assert(out.deep_view() =~= page.map_values(|c: ClaimV| masked_claim(c, now as nat)));
        }
        ClaimsResponse { claims: out }
    }

    /// Lists claims of the given status: the scan starts after
    /// `start_after`, keeps only matching claims, and stops after `limit`
    /// of them (30 when absent). Masked like [`State::query_claim`].
    pub fn query_claims_by_status(
        &self,
        now: u64,
        status: ClaimStatus,
        start_after: Option<u64>,
        limit: Option<u32>,
    ) -> (r: ClaimsResponse)
        requires
            self.wf(),
        ensures
            ({
                let n = self.claims_v().len() as int;
                let start = window_start(start_after);
                let lo = if start <= n {
                    start
                } else {
                    n
                };
                let f = self.claims_v().skip(lo).filter(|c: ClaimV| c.status == status);
                let tk = if query_limit(limit) <= f.len() as int {
                    query_limit(limit)
                } else {
                    f.len() as int
                };
                r.claims.deep_view() == f.take(tk).map_values(
                    |c: ClaimV| masked_claim(c, now as nat),
                )
            }),
    {
        broadcast use vstd::seq_lib::group_filter_ensures;

        let ghost cv = self.claims_v();
        let n = self.claims.len();
        let start_idx: usize = match start_after {
            Option::None => 0,
            Option::Some(s) => if s >= n as u64 {
                n
            } else {
                (s as usize) + 1
            },
        };
        let ghost lo = start_idx as int;
        let ghost pred = |c: ClaimV| c.status == status;
        let lim: usize = match limit {
            Option::None => 30,
            Option::Some(l) => l as usize,
        };
        let mut out: Vec<ClaimResponse> = Vec::new();
        let ghost mut selected = Seq::<ClaimV>::empty();
        let mut i: usize = start_idx;
        proof {
            assert(cv.subrange(lo, lo) =~= Seq::<ClaimV>::empty());
            assert(cv.subrange(lo, lo).filter(pred) =~= Seq::<ClaimV>::empty());
        }
        while i < n && out.len() < lim
            invariant
                n == cv.len(),
                cv == self.claims_v(),
                start_idx <= i <= n,
                lo == start_idx as int,
                pred == (|c: ClaimV| c.status == status),
                selected == cv.subrange(lo, i as int).filter(pred),
                selected.len() == out.deep_view().len(),
                out.deep_view().len() <= lim,
                out.deep_view() == selected.map_values(|c: ClaimV| masked_claim(c, now as nat)),
            decreases n - i,
        {
            let ghost pre_sub = cv.subrange(lo, i as int);
            if self.claims[i].status == status {
                let resp = make_claim_response(&self.claims[i], now);
                let ghost pre_out = out.deep_view();
                let ghost rv = resp@;
                out.push(resp);
                proof {
                    selected = selected.push(cv[i as int]);
                    assert(out.deep_view() =~= pre_out.push(rv));
                }
            }
            i = i + 1;
            proof {
                assert(cv.subrange(lo, i as int) =~= pre_sub.push(cv[i - 1]));
                Seq::lemma_filter_push(pre_sub, cv[i - 1], pred);
                assert(out.deep_view() =~= selected.map_values(
                    |c: ClaimV| masked_claim(c, now as nat),
                ));
            }
        }
        proof {
            let f = cv.skip(lo).filter(pred);
            let tk = if query_limit(limit) <= f.len() as int {
                query_limit(limit)
            } else {
                f.len() as int
            };
            if i == n {
                assert(cv.subrange(lo, n as int) =~= cv.skip(lo));
                assert(selected =~= f.take(tk));
            } else {
                assert(out.deep_view().len() == lim);
                assert(cv.skip(lo) =~= cv.subrange(lo, i as int) + cv.subrange(
                    i as int,
                    n as int,
                ));
                Seq::filter_distributes_over_add(
                    cv.subrange(lo, i as int),
                    cv.subrange(i as int, n as int),
                    pred,
                );
                assert(selected =~= f.take(tk));
            }
            assert(out.deep_view() =~= f.take(tk).map_values(
                |c: ClaimV| masked_claim(c, now as nat),
            ));
        }
        ClaimsResponse { claims: out }
    }

    /// Lists organizations with addresses strictly after `start_after` in
    /// the lexicographic order, at most `limit` of them (30 when absent),
    /// in ascending address order, contiguously with the full listing.
    pub fn query_all_organizations(&self, start_after: Option<&str>, limit: Option<u32>) -> (r:
        OrganizationsResponse)
        requires
            self.wf(),
        ensures
            ({
                let v = self.orgs_v();
                let n = v.len() as int;
                let lo = match start_after {
                    Option::None => 0,
                    Option::Some(s) => cut_after(v, s@),
                };
                let lim = query_limit(limit);
                let hi = if lo + lim <= n {
                    lo + lim
                } else {
                    n
                };
                r.organizations.deep_view() == v.subrange(lo, hi).map_values(
                    |e: OrgEntryV| org_item_of(e),
                )
            }),
    {
        let ghost v = self.orgs_v();
        let n = self.organizations.len();
        let mut i: usize = 0;
        match start_after {
            Option::None => {},
            Option::Some(s) => {
                while i < n && !(compare_str(s, self.organizations[i].address.as_str())
                    == StrCmp::Less)
                    invariant
                        n == v.len(),
                        v == self.orgs_v(),
                        i <= n,
                        forall|k: int|
                            0 <= k < i ==> !lex_lt(s@, (#[trigger] v[k]).address),
                    decreases n - i,
                {
                    i = i + 1;
                }
                proof {
                    lemma_cut_after_at(v, s@, i as int);
                }
            },
        }
        let lo = i;
        let lim: usize = match limit {
            Option::None => 30,
            Option::Some(l) => l as usize,
        };
        let mut out: Vec<OrganizationListItem> = Vec::new();
        while i < n && out.len() < lim
            invariant
                n == v.len(),
                v == self.orgs_v(),
                lo <= i <= n,
                out.deep_view().len() == i - lo,
                out.deep_view().len() <= lim,
                forall|k: int|
                    0 <= k < out.deep_view().len() ==> out.deep_view()[k] == org_item_of(
                        v[lo + k],
                    ),
            decreases n - i,
        {
            let e = &self.organizations[i];
            let item = OrganizationListItem {
                address: e.address.clone(),
                name: e.info.name.clone(),
                reputation_score: e.info.reputation_score,
                carbon_credits: e.info.carbon_credits,
            };
            let ghost pre_out = out.deep_view();
            let ghost iv = item@;
            out.push(item);
            i = i + 1;
            proof {
                assert(out.deep_view() =~= pre_out.push(iv));
            }
        }
        proof {
            let lim_s = query_limit(limit);
            let hi = if lo as int + lim_s <= n as int {
                lo as int + lim_s
            } else {
                n as int
            };
            assert(out.deep_view() =~= v.subrange(lo as int, hi).map_values(
                |e: OrgEntryV| org_item_of(e),
            ));
        }
        OrganizationsResponse { organizations: out }
    }

    /// Lists the lend requests `user` is a party to: the scan takes the
    /// first `limit` requests after `start_after` (30 when absent) and
    /// keeps those where the user is borrower or lender, annotated with
    /// that role.
    pub fn query_user_lend_requests(
        &self,
        user: &str,
        start_after: Option<u64>,
        limit: Option<u32>,
    ) -> (r: UserLendRequestsResponse)
        requires
            self.wf(),
        ensures
            r.lend_requests.deep_view() == page_of(self.lends_v(), start_after, limit).filter(
                |q: LendRequestV| involves_user(q, user@),
            ).map_values(|q: LendRequestV| lend_resp_of(q, user@)),
    {
        broadcast use vstd::seq_lib::group_filter_ensures;

        let ghost lv = self.lends_v();
        let ghost pred = |q: LendRequestV| involves_user(q, user@);
        let n = self.lend_requests.len();
        let start_idx: usize = match start_after {
            Option::None => 0,
            Option::Some(s) => if s >= n as u64 {
                n
            } else {
                (s as usize) + 1
            },
        };
        let lim: usize = match limit {
            Option::None => 30,
            Option::Some(l) => l as usize,
        };
        let hi: usize = if lim > n - start_idx {
            n
        } else {
            start_idx + lim
        };
        let mut out: Vec<LendRequestResponse> = Vec::new();
        let ghost mut selected = Seq::<LendRequestV>::empty();
        let mut i: usize = start_idx;
        proof {
            assert(lv.subrange(start_idx as int, start_idx as int) =~= Seq::<
                LendRequestV,
            >::empty());
            assert(lv.subrange(start_idx as int, start_idx as int).filter(pred) =~= Seq::<
                LendRequestV,
            >::empty());
        }
        while i < hi
            invariant
                n == lv.len(),
                lv == self.lends_v(),
                start_idx <= i <= hi <= n,
                pred == (|q: LendRequestV| involves_user(q, user@)),
                selected == lv.subrange(start_idx as int, i as int).filter(pred),
                out.deep_view() == selected.map_values(
                    |q: LendRequestV| lend_resp_of(q, user@),
                ),
            decreases hi - i,
        {
            let ghost pre_sub = lv.subrange(start_idx as int, i as int);
            let q = &self.lend_requests[i];
            let is_borrower = compare_str(q.borrower.as_str(), user) == StrCmp::Equal;
            let is_lender = compare_str(q.lender.as_str(), user) == StrCmp::Equal;
            if is_borrower || is_lender {
                let role = if is_borrower {
                    String::from_str("borrower")
                } else {
                    String::from_str("lender")
                };
                let resp = LendRequestResponse {
                    id: q.id,
                    borrower: q.borrower.clone(),
                    lender: q.lender.clone(),
                    status: q.status,
                    eligibility_score: q.eligibility_score,
                    proof_data: q.proof_data.clone(),
                    time: q.time,
                    amount: q.amount,
                    role,
                };
                let ghost pre_out = out.deep_view();
                let ghost rv = resp@;
                out.push(resp);
                proof {
                    selected = selected.push(lv[i as int]);
                    assert(out.deep_view() =~= pre_out.push(rv));
                }
            }
            i = i + 1;
            proof {
                assert(lv.subrange(start_idx as int, i as int) =~= pre_sub.push(lv[i - 1]));
                Seq::lemma_filter_push(pre_sub, lv[i - 1], pred);
                assert(out.deep_view() =~= selected.map_values(
                    |q: LendRequestV| lend_resp_of(q, user@),
                ));
            }
        }
        proof {
            let page = page_of(lv, start_after, limit);
            assert(page =~= lv.subrange(start_idx as int, hi as int));
            assert(out.deep_view() =~= page.filter(pred).map_values(
                |q: LendRequestV| lend_resp_of(q, user@),
            ));
        }
        UserLendRequestsResponse { lend_requests: out }
    }

    /// Dispatches one query to its handler; `now` is the block time in
    /// seconds. Each arm promises exactly its handler's contract.
    pub fn query(&self, now: u64, msg: QueryMsg) -> (r: Result<QueryResponse, ContractError>)
        requires
            self.wf(),
        ensures
            match msg {
                QueryMsg::GetConfig => match r {
                    Ok(resp) => match resp {
                        QueryResponse::Config(c) => c@.owner == self.config@.owner
                            && c@.voting_period == self.config@.voting_period
                            && c@.total_carbon_credits == self.config@.total_carbon_credits,
                        _ => false,
                    },
                    Err(_) => false,
                },
                QueryMsg::GetClaim { id } => match r {
                    Ok(resp) => match resp {
                        QueryResponse::Claim(c) => (id as nat) < self.claims_v().len() && c@
                            == masked_claim(self.claims_v()[id as int], now as nat),
                        _ => false,
                    },
                    Err(e) => e == ContractError::ClaimNotFound && (id as nat)
                        >= self.claims_v().len(),
                },
                QueryMsg::GetOrganization { address } => match r {
                    Ok(resp) => match resp {
                        QueryResponse::Organization(o) => o@.address == address@ && o@.info
                            == self.org_of(address@),
                        _ => false,
                    },
                    Err(_) => false,
                },
                QueryMsg::GetTotalCarbonCredits => match r {
                    Ok(resp) => match resp {
                        QueryResponse::TotalCarbonCredits(t) => t.total as nat
                            == self.config@.total_carbon_credits,
                        _ => false,
                    },
                    Err(_) => false,
                },
                QueryMsg::GetClaims { start_after, limit } => match r {
                    Ok(resp) => match resp {
                        QueryResponse::Claims(cr) => cr.claims.deep_view() == page_of(
                            self.claims_v(),
                            start_after,
                            limit,
                        ).map_values(|c: ClaimV| masked_claim(c, now as nat)),
                        _ => false,
                    },
                    Err(_) => false,
                },
                QueryMsg::GetClaimsByStatus { status, start_after, limit } => match r {
                    Ok(resp) => match resp {
                        QueryResponse::Claims(cr) => {
                            let n = self.claims_v().len() as int;
                            let start = window_start(start_after);
                            let lo = if start <= n {
                                start
                            } else {
                                n
                            };
                            let f = self.claims_v().skip(lo).filter(
                                |c: ClaimV| c.status == status,
                            );
                            let tk = if query_limit(limit) <= f.len() as int {
                                query_limit(limit)
                            } else {
                                f.len() as int
                            };
                            cr.claims.deep_view() == f.take(tk).map_values(
                                |c: ClaimV| masked_claim(c, now as nat),
                            )
                        },
                        _ => false,
                    },
                    Err(_) => false,
                },
                QueryMsg::GetAllOrganizations { start_after, limit } => match r {
                    Ok(resp) => match resp {
                        QueryResponse::Organizations(orgs) => {
                            let v = self.orgs_v();
                            let n = v.len() as int;
                            let lo = match start_after {
                                Option::None => 0,
                                Option::Some(s) => cut_after(v, s@),
                            };
                            let lim = query_limit(limit);
                            let hi = if lo + lim <= n {
                                lo + lim
                            } else {
                                n
                            };
                            orgs.organizations.deep_view() == v.subrange(lo, hi).map_values(
                                |e: OrgEntryV| org_item_of(e),
                            )
                        },
                        _ => false,
                    },
                    Err(_) => false,
                },
                QueryMsg::UserLendRequests { user, start_after, limit } => match r {
                    Ok(resp) => match resp {
                        QueryResponse::UserLendRequests(lr) => lr.lend_requests.deep_view()
                            == page_of(self.lends_v(), start_after, limit).filter(
                            |q: LendRequestV| involves_user(q, user@),
                        ).map_values(|q: LendRequestV| lend_resp_of(q, user@)),
                        _ => false,
                    },
                    Err(_) => false,
                },
            },
    {
        match msg {
            QueryMsg::GetConfig => Ok(QueryResponse::Config(self.query_config())),
            QueryMsg::GetClaim { id } => match self.query_claim(now, id) {
                Ok(c) => Ok(QueryResponse::Claim(c)),
                Err(e) => Err(e),
            },
            QueryMsg::GetOrganization { address } => Ok(
                QueryResponse::Organization(self.query_organization(address.as_str())),
            ),
            QueryMsg::GetTotalCarbonCredits => Ok(
                QueryResponse::TotalCarbonCredits(self.query_total_carbon_credits()),
            ),
            QueryMsg::GetClaims { start_after, limit } => Ok(
                QueryResponse::Claims(self.query_claims(now, start_after, limit)),
            ),
            QueryMsg::GetClaimsByStatus { status, start_after, limit } => Ok(
                QueryResponse::Claims(
                    self.query_claims_by_status(now, status, start_after, limit),
                ),
            ),
            QueryMsg::GetAllOrganizations { start_after, limit } => {
                let page = match &start_after {
                    Option::None => self.query_all_organizations(Option::None, limit),
                    Option::Some(s) => self.query_all_organizations(
                        Option::Some(s.as_str()),
                        limit,
                    ),
                };
                Ok(QueryResponse::Organizations(page))
            },
            QueryMsg::UserLendRequests { user, start_after, limit } => Ok(
                QueryResponse::UserLendRequests(
                    self.query_user_lend_requests(user.as_str(), start_after, limit),
                ),
            ),
        }
    }
}

} // verus!
