//! The commands: every state transition of the ledger, with its full
//! contract. Each command either returns `Ok` and performs exactly the
//! documented mutation, or returns the documented error and leaves the
//! state untouched.

use vstd::prelude::*;

verus! {

use crate::error::ContractError;
use crate::state::{
    has_org, has_proof, org_lookup, orgs_sorted, proof_lookup, get_org, org_upsert, proof_upsert,
    vote_exists, Claim, ClaimStatus, ClaimV, Config, LendRequest, LendRequestV, LentStatus,
    OrgEntryV, OrgV, ProofV, State, VoteOption, Vote, VoteV,
};
use crate::encoding::{attest_payload_bytes, hex_of, payload_bytes, proof_string};
use crate::msg::{ExecuteMsg, ExecuteResponse, InstantiateMsg};

/// The unclamped eligibility score of a borrower: reputation and returns
/// raise it, debt and emissions lower it, on a base of 50.
pub open spec fn raw_score(
    reputation: nat,
    returned: nat,
    debt: nat,
    emissions: nat,
    credits: nat,
) -> int {
    reputation + returned - debt / 2 - emissions / 10 + credits + 50
}

/// The eligibility score, clamped to `[0, 100]`.
pub open spec fn clamped_score(
    reputation: nat,
    returned: nat,
    debt: nat,
    emissions: nat,
    credits: nat,
) -> nat {
    let r = raw_score(reputation, returned, debt, emissions, credits);
    if r > 100 {
        100
    } else if r < 0 {
        0
    } else {
        r as nat
    }
}

/// The eligibility score of a borrower account.
pub open spec fn score_of_org(o: OrgV) -> nat {
    clamped_score(o.reputation_score, o.total_returned, o.debt, o.emissions, o.carbon_credits)
}

/// Computes the clamped eligibility score; always in `[0, 100]`.
pub(crate) fn compute_score(
    reputation: u32,
    returned: u32,
    debt: u32,
    emissions: u32,
    credits: u32,
) -> (s: u32)
    ensures
        s as nat == clamped_score(
            reputation as nat,
            returned as nat,
            debt as nat,
            emissions as nat,
            credits as nat,
        ),
        s <= 100,
{
    let raw: i64 = reputation as i64 + returned as i64 - (debt as i64) / 2 - (emissions as i64)
        / 10 + credits as i64 + 50;
    if raw > 100 {
        100
    } else if raw < 0 {
        0
    } else {
        raw as u32
    }
}

/// Narrows a balance to 32 bits, failing with `Overflow` when it does not
/// fit, as the score computation requires.
pub(crate) fn narrow_u32(x: u128) -> (r: Result<u32, ContractError>)
    ensures
        match r {
            Ok(v) => x <= u32::MAX && v == x,
            Err(e) => e == ContractError::Overflow && x > u32::MAX,
        },
{
    if x > u32::MAX as u128 {
        Err(ContractError::Overflow)
    } else {
        Ok(x as u32)
    }
}

/// Whether every ledger figure the score formula reads fits in 32 bits,
/// as the formula requires; a larger balance fails the operation.
pub open spec fn score_inputs_fit(b: OrgV, l: OrgV) -> bool {
    &&& b.emissions <= u32::MAX
    &&& b.total_returned <= u32::MAX
    &&& b.total_borrowed <= u32::MAX
    &&& b.debt <= u32::MAX
    &&& b.carbon_credits <= u32::MAX
    &&& b.reputation_score <= u32::MAX
    &&& l.carbon_credits <= u32::MAX
    &&& l.debt <= u32::MAX
}

/// Whether a vote sided with the final outcome of its claim.
pub open spec fn vote_correct(v: VoteOption, approved: bool) -> bool {
    (v == VoteOption::Yes && approved) || (v == VoteOption::No && !approved)
}

/// Whether `a` voted on claim `claim_id` and sided with the outcome.
pub open spec fn voted_correctly(
    votes: Seq<VoteV>,
    claim_id: nat,
    a: Seq<char>,
    approved: bool,
) -> bool {
    exists|i: int|
        0 <= i < votes.len() && votes[i].claim_id == claim_id && votes[i].voter == a
            && vote_correct(votes[i].vote, approved)
}

/// The account of `a` after finalizing a claim: the claimant is credited
/// the demanded tokens when the claim is approved, and every voter who
/// sided with the outcome gains exactly one reputation point. Everyone
/// else is untouched.
pub open spec fn finalized_org(
    base: OrgV,
    a: Seq<char>,
    organization: Seq<char>,
    demanded: nat,
    approved: bool,
    votes: Seq<VoteV>,
    claim_id: nat,
) -> OrgV {
    let wc = if approved && a == organization {
        (OrgV { carbon_credits: (base.carbon_credits + demanded) as nat, ..base })
    } else {
        base
    };
    if voted_correctly(votes, claim_id, a, approved) {
        (OrgV { reputation_score: (wc.reputation_score + 1) as nat, ..wc })
    } else {
        wc
    }
}

/// Extending the processed prefix of the vote list by one vote adds that
/// vote's voter to the correctly-voted set exactly when it matches the
/// claim and sided with the outcome.
proof fn lemma_voted_take_step(votes: Seq<VoteV>, k: int, claim_id: nat, approved: bool)
    requires
        0 <= k < votes.len(),
    ensures
        forall|a: Seq<char>| #![auto]
            voted_correctly(votes.take(k + 1), claim_id, a, approved) == (voted_correctly(
                votes.take(k),
                claim_id,
                a,
                approved,
            ) || (votes[k].claim_id == claim_id && votes[k].voter == a && vote_correct(
                votes[k].vote,
                approved,
            ))),
{
    let pre = votes.take(k);
    let ext = votes.take(k + 1);
    assert(ext =~= pre.push(votes[k]));
    assert forall|a: Seq<char>| #![auto]
        voted_correctly(ext, claim_id, a, approved) == (voted_correctly(pre, claim_id, a, approved)
            || (votes[k].claim_id == claim_id && votes[k].voter == a && vote_correct(
            votes[k].vote,
            approved,
        ))) by {
        if voted_correctly(ext, claim_id, a, approved) {
            let i = choose|i: int|
                0 <= i < ext.len() && ext[i].claim_id == claim_id && ext[i].voter == a
                    && vote_correct(ext[i].vote, approved);
            if i < k {
                assert(pre[i] == ext[i]);
            }
        }
        if voted_correctly(pre, claim_id, a, approved) {
            let i = choose|i: int|
                0 <= i < pre.len() && pre[i].claim_id == claim_id && pre[i].voter == a
                    && vote_correct(pre[i].vote, approved);
            assert(ext[i] == pre[i]);
        }
        if votes[k].claim_id == claim_id && votes[k].voter == a && vote_correct(
            votes[k].vote,
            approved,
        ) {
            assert(ext[k] == votes[k]);
        }
    }
}

/// The config, claims, votes and both counters are the same in `a` and `b`.
pub open spec fn claims_side_unchanged(a: State, b: State) -> bool {
    &&& a.claims_v() == b.claims_v()
    &&& a.claim_counter == b.claim_counter
    &&& a.votes_v() == b.votes_v()
}

/// The lending side (requests, counter, proof records) is the same in `a`
/// and `b`.
pub open spec fn lending_side_unchanged(a: State, b: State) -> bool {
    &&& a.lends_v() == b.lends_v()
    &&& a.lend_request_counter == b.lend_request_counter
    &&& a.proofs_v() == b.proofs_v()
}

/// How a created claim relates the new state to the old one. This is the full contract of the
/// corresponding command; the command and the dispatcher both promise it.
pub open spec fn create_claim_post(
    pre: State,
    post: State,
    r: Result<u64, ContractError>,
    now: u64,
    sender: Seq<char>,
    longitudes: Seq<Seq<char>>,
    latitudes: Seq<Seq<char>>,
    time_started: u64,
    time_ended: u64,
    demanded_tokens: u128,
    ipfs_hashes: Seq<Seq<char>>,
) -> bool {
    &&& (match r {
        Ok(id) => {
            &&& now + pre.config@.voting_period <= u64::MAX
            &&& pre.claim_counter < u64::MAX
            &&& id == pre.claim_counter
            &&& post.claim_counter == pre.claim_counter + 1
            &&& post.claims_v() == pre.claims_v().push(
                (ClaimV {
                    id: id as nat,
                    organization: sender,
                    longitudes: longitudes,
                    latitudes: latitudes,
                    time_started: time_started as nat,
                    time_ended: time_ended as nat,
                    demanded_tokens: demanded_tokens as nat,
                    ipfs_hashes: ipfs_hashes,
                    status: ClaimStatus::Active,
                    voting_end_time: (now + pre.config@.voting_period) as nat,
                    yes_votes: 0,
                    no_votes: 0,
                }),
            )
            &&& post.votes_v() == pre.votes_v()
            &&& post.config@ == pre.config@
            &&& post.orgs_v() == pre.orgs_v()
            &&& lending_side_unchanged(pre, post)
        },
        Err(e) => {
            &&& e == ContractError::Overflow
            &&& (now + pre.config@.voting_period > u64::MAX || pre.claim_counter == u64::MAX)
            &&& post == pre
        },
    })
}

/// How a cast vote relates the new state to the old one. This is the full contract of the
/// corresponding command; the command and the dispatcher both promise it.
pub open spec fn cast_vote_post(
    pre: State,
    post: State,
    r: Result<(), ContractError>,
    now: u64,
    sender: Seq<char>,
    claim_id: u64,
    vote: VoteOption,
) -> bool {
    &&& (claim_id as nat >= pre.claims_v().len() ==> r == Err::<(), ContractError>(
        ContractError::ClaimNotFound,
    ) && post == pre)
    &&& (((claim_id as nat) < pre.claims_v().len() && now as nat > pre.claims_v()[
        claim_id as int
    ].voting_end_time) ==> r == Err::<(), ContractError>(ContractError::VotingEnded)
        && post == pre)
    &&& (((claim_id as nat) < pre.claims_v().len() && now as nat <= pre.claims_v()[
        claim_id as int
    ].voting_end_time && pre.has_vote(claim_id as nat, sender)) ==> r == Err::< (), ContractError, >(ContractError::AlreadyVoted) && post == pre)
    &&& (((claim_id as nat) < pre.claims_v().len() && now as nat <= pre.claims_v()[
        claim_id as int
    ].voting_end_time && !pre.has_vote(claim_id as nat, sender)) ==> {
        let c = pre.claims_v()[claim_id as int];
        let tally = if vote == VoteOption::Yes {
            c.yes_votes
        } else {
            c.no_votes
        };
        if tally == u128::MAX {
            r == Err::<(), ContractError>(ContractError::Overflow) && post
                == pre
        } else {
            &&& r == Ok::<(), ContractError>(())
            &&& post.votes_v() == pre.votes_v().push(
                (VoteV { claim_id: claim_id as nat, voter: sender, vote }),
            )
            &&& post.claims_v() == pre.claims_v().update(
                claim_id as int,
                if vote == VoteOption::Yes {
                    (ClaimV { yes_votes: (c.yes_votes + 1) as nat, ..c })
                } else {
                    (ClaimV { no_votes: (c.no_votes + 1) as nat, ..c })
                },
            )
            &&& post.claim_counter == pre.claim_counter
            &&& post.config@ == pre.config@
            &&& post.orgs_v() == pre.orgs_v()
            &&& lending_side_unchanged(pre, post)
        }
    })
}

/// How a name update relates the new state to the old one. This is the full contract of the
/// corresponding command; the command and the dispatcher both promise it.
pub open spec fn update_name_post(
    pre: State,
    post: State,
    r: Result<(), ContractError>,
    sender: Seq<char>,
    name: Seq<char>,
) -> bool {
    &&& (r == Ok::<(), ContractError>(()))
    &&& (forall|a: Seq<char>| #![auto]
        post.org_of(a) == if a == sender {
            (OrgV { name: name, ..pre.org_of(a) })
        } else {
            pre.org_of(a)
        })
    &&& (forall|a: Seq<char>| #![auto]
        has_org(post.orgs_v(), a) == (has_org(pre.orgs_v(), a) || a
            == sender))
    &&& (claims_side_unchanged(pre, post))
    &&& (lending_side_unchanged(pre, post))
    &&& (post.config@ == pre.config@)
}

/// How an emission addition relates the new state to the old one. This is the full contract of the
/// corresponding command; the command and the dispatcher both promise it.
pub open spec fn add_emission_post(
    pre: State,
    post: State,
    r: Result<(), ContractError>,
    sender: Seq<char>,
    emissions: Seq<char>,
) -> bool {
    &&& (match r {
        Ok(_) => {
            &&& emissions.len() > 0
            &&& forall|k: int|
                0 <= k < emissions.len() ==> crate::text::is_dec_digit(
                    #[trigger] emissions[k],
                )
            &&& crate::text::dec_value(emissions) + pre.org_of(sender).emissions
                <= u128::MAX
            &&& forall|a: Seq<char>| #![auto]
                post.org_of(a) == if a == sender {
                    (OrgV {
                        emissions: (pre.org_of(a).emissions
                            + crate::text::dec_value(emissions)) as nat,
                        ..pre.org_of(a)
                    })
                } else {
                    pre.org_of(a)
                }
            &&& forall|a: Seq<char>| #![auto]
                has_org(post.orgs_v(), a) == (has_org(pre.orgs_v(), a) || a
                    == sender)
            &&& claims_side_unchanged(pre, post)
            &&& lending_side_unchanged(pre, post)
            &&& post.config@ == pre.config@
        },
        Err(e) => {
            &&& post == pre
            &&& (e == ContractError::InvalidNumericInput || e == ContractError::Overflow)
            &&& (e == ContractError::InvalidNumericInput <==> (emissions.len() == 0 || (
            exists|k: int|
                0 <= k < emissions.len() && !crate::text::is_dec_digit(
                    #[trigger] emissions[k],
                )) || crate::text::dec_value(emissions) > u128::MAX))
            &&& (e == ContractError::Overflow ==> crate::text::dec_value(emissions)
                + pre.org_of(sender).emissions > u128::MAX)
        },
    })
}

/// How a repayment relates the new state to the old one. This is the full contract of the
/// corresponding command; the command and the dispatcher both promise it.
pub open spec fn repay_tokens_post(
    pre: State,
    post: State,
    r: Result<(), ContractError>,
    sender: Seq<char>,
    lender: Seq<char>,
    amount: u128,
) -> bool {
    &&& (({
        let b = pre.org_of(sender);
        let l = pre.org_of(lender);
        match r {
            Ok(_) => {
                &&& b.carbon_credits >= amount
                &&& b.debt >= amount
                &&& b.total_returned + amount <= u128::MAX
                &&& l.carbon_credits + amount <= u128::MAX
                &&& forall|a: Seq<char>| #![auto]
                    post.org_of(a) == if a == lender {
                        (OrgV { carbon_credits: (l.carbon_credits + amount) as nat, ..l })
                    } else if a == sender {
                        (OrgV {
                            carbon_credits: (b.carbon_credits - amount) as nat,
                            debt: (b.debt - amount) as nat,
                            total_returned: (b.total_returned + amount) as nat,
                            ..b
                        })
                    } else {
                        pre.org_of(a)
                    }
                &&& forall|a: Seq<char>| #![auto]
                    has_org(post.orgs_v(), a) == (has_org(pre.orgs_v(), a)
                        || a == sender || a == lender)
                &&& claims_side_unchanged(pre, post)
                &&& lending_side_unchanged(pre, post)
                &&& post.config@ == pre.config@
            },
            Err(e) => {
                &&& post == pre
                &&& (e == ContractError::NotEnoughCredits <==> (b.carbon_credits < amount
                    || b.debt < amount))
                &&& (e == ContractError::Overflow <==> (b.carbon_credits >= amount
                    && b.debt >= amount && (b.total_returned + amount > u128::MAX
                    || l.carbon_credits + amount > u128::MAX)))
                &&& (e == ContractError::NotEnoughCredits || e == ContractError::Overflow)
            },
        }
    }))
}

/// How an opened lend request relates the new state to the old one. This is the full contract of the
/// corresponding command; the command and the dispatcher both promise it.
pub open spec fn request_tokens_post(
    pre: State,
    post: State,
    r: Result<u64, ContractError>,
    now: u64,
    sender: Seq<char>,
    lender: Seq<char>,
    amount: u128,
) -> bool {
    &&& (({
        let b = pre.org_of(sender);
        let l = pre.org_of(lender);
        match r {
            Ok(id) => {
                &&& score_inputs_fit(b, l)
                &&& pre.lend_request_counter < u64::MAX
                &&& id == pre.lend_request_counter
                &&& post.lend_request_counter == pre.lend_request_counter
                    + 1
                &&& post.lends_v() == pre.lends_v().push(
                    (LendRequestV {
                        id: id as nat,
                        borrower: sender,
                        lender: lender,
                        amount: amount as nat,
                        eligibility_score: score_of_org(b),
                        proof_data: proof_string(
                            payload_bytes(
                                b.emissions,
                                b.total_returned,
                                b.total_borrowed,
                                b.debt,
                                b.carbon_credits,
                                b.reputation_score,
                                l.carbon_credits,
                                l.debt,
                            ),
                            score_of_org(b),
                        ),
                        status: LentStatus::Active,
                        time: now as nat,
                    }),
                )
                &&& post.proofs_v() == pre.proofs_v()
                &&& post.orgs_v() == pre.orgs_v()
                &&& post.config@ == pre.config@
                &&& claims_side_unchanged(pre, post)
            },
            Err(e) => {
                &&& e == ContractError::Overflow
                &&& (!score_inputs_fit(b, l) || pre.lend_request_counter
                    == u64::MAX)
                &&& post == pre
            },
        }
    }))
}

/// How an eligibility attestation relates the new state to the old one. This is the full contract of the
/// corresponding command; the command and the dispatcher both promise it.
pub open spec fn verify_eligibility_post(
    pre: State,
    post: State,
    r: Result<(u128, String), ContractError>,
    borrower: Seq<char>,
    lender: Seq<char>,
) -> bool {
    &&& (({
        let b = pre.org_of(borrower);
        let l = pre.org_of(lender);
        let bytes = attest_payload_bytes(
            b.emissions,
            b.total_returned,
            b.total_borrowed,
            b.debt,
            b.carbon_credits,
            b.reputation_score,
            l.carbon_credits,
            l.debt,
            score_of_org(b),
        );
        match r {
            Ok(p) => {
                &&& score_inputs_fit(b, l)
                &&& score_of_org(b) > 0
                &&& p.0 == score_of_org(b)
                &&& p.1@ == hex_of(bytes)
                &&& forall|x: Seq<char>, y: Seq<char>| #![auto]
                    has_proof(post.proofs_v(), x, y) == (has_proof(
                        pre.proofs_v(),
                        x,
                        y,
                    ) || (x == borrower && y == lender))
                &&& forall|x: Seq<char>, y: Seq<char>| #![auto]
                    proof_lookup(post.proofs_v(), x, y) == if x == borrower && y
                        == lender {
                        bytes
                    } else {
                        proof_lookup(pre.proofs_v(), x, y)
                    }
                &&& post.lends_v() == pre.lends_v()
                &&& post.lend_request_counter == pre.lend_request_counter
                &&& post.orgs_v() == pre.orgs_v()
                &&& post.config@ == pre.config@
                &&& claims_side_unchanged(pre, post)
            },
            Err(e) => {
                &&& post == pre
                &&& (e == ContractError::Overflow <==> !score_inputs_fit(b, l))
                &&& (e == ContractError::BorrowerNotEligible <==> (score_inputs_fit(b, l)
                    && score_of_org(b) == 0))
                &&& (e == ContractError::Overflow || e
                    == ContractError::BorrowerNotEligible)
            },
        }
    }))
}

/// How a lend response relates the new state to the old one. This is the full contract of the
/// corresponding command; the command and the dispatcher both promise it.
pub open spec fn lend_tokens_post(
    pre: State,
    post: State,
    r: Result<bool, ContractError>,
    sender: Seq<char>,
    lend_request_id: u64,
    response: Seq<char>,
) -> bool {
    &&& ((lend_request_id as nat) >= pre.lends_v().len() ==> r == Err::< bool, ContractError, >(ContractError::RequestNotFound) && post == pre)
    &&& (((lend_request_id as nat) < pre.lends_v().len() ==> {
        let q = pre.lends_v()[lend_request_id as int];
        let resp = crate::text::ascii_lower(response);
        let l = pre.org_of(sender);
        let b = pre.org_of(q.borrower);
        if q.lender != sender {
            r == Err::<bool, ContractError>(ContractError::Unauthorized) && post == pre
        } else if q.status != LentStatus::Active {
            r == Err::<bool, ContractError>(ContractError::RequestNotActive) && post == pre
        } else if resp != "accepted"@ && resp != "denied"@ {
            r == Err::<bool, ContractError>(ContractError::InvalidResponse) && post == pre
        } else if resp == "denied"@ {
            &&& r == Ok::<bool, ContractError>(false)
            &&& post.lends_v() == pre.lends_v().update(
                lend_request_id as int,
                (LendRequestV { status: LentStatus::Rejected, ..q }),
            )
            &&& post.lend_request_counter == pre.lend_request_counter
            &&& post.proofs_v() == pre.proofs_v()
            &&& post.orgs_v() == pre.orgs_v()
            &&& post.config@ == pre.config@
            &&& claims_side_unchanged(pre, post)
        } else if l.carbon_credits < q.amount {
            r == Err::<bool, ContractError>(ContractError::NotEnoughCredits) && post == pre
        } else if b.carbon_credits + q.amount > u128::MAX || b.debt + q.amount
            > u128::MAX || b.times_borrowed + 1 > u32::MAX || b.total_borrowed + q.amount
            > u128::MAX {
            r == Err::<bool, ContractError>(ContractError::Overflow) && post
                == pre
        } else {
            &&& r == Ok::<bool, ContractError>(true)
            &&& forall|a: Seq<char>| #![auto]
                post.org_of(a) == if a == q.borrower {
                    (OrgV {
                        carbon_credits: (b.carbon_credits + q.amount) as nat,
                        debt: (b.debt + q.amount) as nat,
                        times_borrowed: (b.times_borrowed + 1) as nat,
                        total_borrowed: (b.total_borrowed + q.amount) as nat,
                        ..b
                    })
                } else if a == sender {
                    (OrgV { carbon_credits: (l.carbon_credits - q.amount) as nat, ..l })
                } else {
                    pre.org_of(a)
                }
            &&& forall|a: Seq<char>| #![auto]
                has_org(post.orgs_v(), a) == (has_org(pre.orgs_v(), a) || a
                    == sender || a == q.borrower)
            &&& post.lends_v() == pre.lends_v().update(
                lend_request_id as int,
                (LendRequestV { status: LentStatus::Approved, ..q }),
            )
            &&& post.lend_request_counter == pre.lend_request_counter
            &&& post.proofs_v() == pre.proofs_v()
            &&& post.config@ == pre.config@
            &&& claims_side_unchanged(pre, post)
        }
    }))
}

/// How a finalization relates the new state to the old one. This is the full contract of the
/// corresponding command; the command and the dispatcher both promise it.
pub open spec fn finalize_voting_post(
    pre: State,
    post: State,
    r: Result<ClaimStatus, ContractError>,
    now: u64,
    claim_id: u64,
) -> bool {
    &&& ((claim_id as nat) >= pre.claims_v().len() ==> r == Err::< ClaimStatus, ContractError, >(ContractError::ClaimNotFound) && post == pre)
    &&& (((claim_id as nat) < pre.claims_v().len() ==> {
        let c = pre.claims_v()[claim_id as int];
        let approved = c.yes_votes >= c.no_votes;
        let overflow = (approved && (pre.org_of(c.organization).carbon_credits
            + c.demanded_tokens > u128::MAX || pre.config@.total_carbon_credits
            + c.demanded_tokens > u128::MAX)) || (exists|i: int|
            0 <= i < pre.votes_v().len() && (#[trigger] pre.votes_v()[
                i
            ]).claim_id == claim_id as nat && vote_correct(
                pre.votes_v()[i].vote,
                approved,
            ) && pre.org_of(pre.votes_v()[i].voter).reputation_score
                == u128::MAX);
        if now as nat <= c.voting_end_time {
            r == Err::<ClaimStatus, ContractError>(ContractError::VotingNotEnded)
                && post == pre
        } else if c.status != ClaimStatus::Active {
            r == Err::<ClaimStatus, ContractError>(ContractError::ClaimNotActive)
                && post == pre
        } else if overflow {
            r == Err::<ClaimStatus, ContractError>(ContractError::Overflow) && post == pre
        } else {
            let st = if approved {
                ClaimStatus::Approved
            } else {
                ClaimStatus::Rejected
            };
            &&& r == Ok::<ClaimStatus, ContractError>(st)
            &&& post.claims_v() == pre.claims_v().update(
                claim_id as int,
                (ClaimV { status: st, ..c }),
            )
            &&& post.config@.owner == pre.config@.owner
            &&& post.config@.voting_period == pre.config@.voting_period
            &&& post.config@.total_carbon_credits == pre.config@.total_carbon_credits + (if approved {
                c.demanded_tokens
            } else {
                0
            })
            &&& forall|a: Seq<char>| #![auto]
                post.org_of(a) == finalized_org(
                    pre.org_of(a),
                    a,
                    c.organization,
                    c.demanded_tokens,
                    approved,
                    pre.votes_v(),
                    claim_id as nat,
                )
            &&& forall|a: Seq<char>| #![auto]
                has_org(post.orgs_v(), a) == (has_org(pre.orgs_v(), a) || (
                approved && a == c.organization) || voted_correctly(
                    pre.votes_v(),
                    claim_id as nat,
                    a,
                    approved,
                ))
            &&& post.votes_v() == pre.votes_v()
            &&& post.claim_counter == pre.claim_counter
            &&& lending_side_unchanged(pre, post)
        }
    }))
}

impl State {
    /// Sets up a fresh ledger: the sender becomes the owner, the voting
    /// period is fixed, and everything else starts empty.
    pub fn instantiate(sender: &str, msg: InstantiateMsg) -> (s: State)
        ensures
            s.wf(),
            s.config@.owner == sender@,
            s.config@.voting_period == msg.voting_period as nat,
            s.config@.total_carbon_credits == 0,
            s.claims_v() == Seq::<ClaimV>::empty(),
            s.votes_v() == Seq::<VoteV>::empty(),
            s.orgs_v() == Seq::<OrgEntryV>::empty(),
            s.lends_v() == Seq::<LendRequestV>::empty(),
            s.proofs_v() == Seq::<ProofV>::empty(),
            s.claim_counter == 0,
            s.lend_request_counter == 0,
    {
        let s = State {
            config: Config {
                owner: sender.to_owned(),
                voting_period: msg.voting_period,
                total_carbon_credits: 0,
            },
            claim_counter: 0,
            lend_request_counter: 0,
            claims: Vec::new(),
            votes: Vec::new(),
            organizations: Vec::new(),
            lend_requests: Vec::new(),
            proofs: Vec::new(),
        };
        proof {
            assert(s.claims_v() =~= Seq::<ClaimV>::empty());
            assert(s.votes_v() =~= Seq::<VoteV>::empty());
            assert(s.orgs_v() =~= Seq::<OrgEntryV>::empty());
            assert(s.lends_v() =~= Seq::<LendRequestV>::empty());
            assert(s.proofs_v() =~= Seq::<ProofV>::empty());
        }
        s
    }

    /// Registers a new claim: it takes the next id, opens Active with zero
    /// tallies, and its voting deadline is `now + voting_period`. The
    /// coordinate lists, time window and demanded amount are recorded as
    /// given, unvalidated. The organization ledger is untouched; credits
    /// are granted only on approval.
    pub fn execute_create_claim(
        &mut self,
        now: u64,
        sender: &str,
        longitudes: Vec<String>,
        latitudes: Vec<String>,
        time_started: u64,
        time_ended: u64,
        demanded_tokens: u128,
        ipfs_hashes: Vec<String>,
    ) -> (r: Result<u64, ContractError>)
        requires
            old(self).wf(),
        ensures
            final(self).wf(),
            create_claim_post(*old(self), *final(self), r, now, sender@, longitudes.deep_view(), latitudes.deep_view(), time_started, time_ended, demanded_tokens, ipfs_hashes.deep_view()),
    {
        if self.config.voting_period > u64::MAX - now {
            return Err(ContractError::Overflow);
        }
        if self.claim_counter == u64::MAX {
            return Err(ContractError::Overflow);
        }
        let id = self.claim_counter;
        let claim = Claim {
            id,
            organization: sender.to_owned(),
            longitudes,
            latitudes,
            time_started,
            time_ended,
            demanded_tokens,
            ipfs_hashes,
            status: ClaimStatus::Active,
            voting_end_time: now + self.config.voting_period,
            yes_votes: 0,
            no_votes: 0,
        };
        let ghost cv = claim@;
        let ghost pre = self.claims.deep_view();
        self.claims.push(claim);
        self.claim_counter = id + 1;
        proof {
            assert(self.claims.deep_view() =~= pre.push(cv));
            let votes = self.votes_v();
            assert forall|i: int| 0 <= i < votes.len() implies !((#[trigger] votes[i]).claim_id
                == id as nat && votes[i].vote == VoteOption::Yes) by {}
            crate::state::lemma_count_vote_absent(votes, id as nat, VoteOption::Yes);
            crate::state::lemma_count_vote_absent(votes, id as nat, VoteOption::No);
        }
        Ok(id)
    }

    /// Records one vote: the claim must exist, its deadline must not have
    /// passed (`now <= voting_end_time`), and the sender must not have
    /// voted on it before. The matching tally rises by exactly one.
    pub fn execute_cast_vote(
        &mut self,
        now: u64,
        sender: &str,
        claim_id: u64,
        vote: VoteOption,
    ) -> (r: Result<(), ContractError>)
        requires
            old(self).wf(),
        ensures
            final(self).wf(),
            cast_vote_post(*old(self), *final(self), r, now, sender@, claim_id, vote),
    {
        if claim_id >= self.claims.len() as u64 {
            return Err(ContractError::ClaimNotFound);
        }
        let idx = claim_id as usize;
        if now > self.claims[idx].voting_end_time {
            return Err(ContractError::VotingEnded);
        }
        if vote_exists(&self.votes, claim_id, sender) {
            return Err(ContractError::AlreadyVoted);
        }
        let ghost pre_claims = self.claims.deep_view();
        let ghost pre_votes = self.votes.deep_view();
        match vote {
            VoteOption::Yes => {
                if self.claims[idx].yes_votes == u128::MAX {
                    return Err(ContractError::Overflow);
                }
                let t = self.claims[idx].yes_votes;
                self.claims[idx].yes_votes = t + 1;
            },
            VoteOption::No => {
                if self.claims[idx].no_votes == u128::MAX {
                    return Err(ContractError::Overflow);
                }
                let t = self.claims[idx].no_votes;
                self.claims[idx].no_votes = t + 1;
            },
        }
        let rec = Vote { claim_id, voter: sender.to_owned(), vote };
        let ghost rv = rec@;
        self.votes.push(rec);
        proof {
            assert(self.votes.deep_view() =~= pre_votes.push(rv));
            let c = pre_claims[claim_id as int];
            if vote == VoteOption::Yes {
                assert(self.claims.deep_view() =~= pre_claims.update(
                    claim_id as int,
                    (ClaimV { yes_votes: (c.yes_votes + 1) as nat, ..c }),
                ));
            } else {
                assert(self.claims.deep_view() =~= pre_claims.update(
                    claim_id as int,
                    (ClaimV { no_votes: (c.no_votes + 1) as nat, ..c }),
                ));
            }
            let nv = self.votes_v();
            assert forall|i: int, j: int| 0 <= i < j < nv.len() implies !(
            (#[trigger] nv[i]).claim_id == (#[trigger] nv[j]).claim_id && nv[i].voter
                == nv[j].voter) by {
                if j == nv.len() - 1 {
                    assert(!old(self).has_vote(claim_id as nat, sender@));
                    assert(nv[j] == rv);
                }
            }
            let nc = self.claims_v();
            assert forall|j: int|
                0 <= j < nc.len() implies (#[trigger] nc[j]).yes_votes
                == crate::state::count_vote(nv, j as nat, VoteOption::Yes) && nc[j].no_votes
                == crate::state::count_vote(nv, j as nat, VoteOption::No) by {
                crate::state::lemma_count_vote_push(pre_votes, rv, j as nat, VoteOption::Yes);
                crate::state::lemma_count_vote_push(pre_votes, rv, j as nat, VoteOption::No);
            }
        }
        Ok(())
    }

    /// Replaces the display name on the caller's own account, creating the
    /// account with zero balances if it does not exist yet. Never fails.
    pub fn execute_update_organization_name(&mut self, sender: &str, name: String) -> (r: Result<
        (),
        ContractError,
    >)
        requires
            old(self).wf(),
        ensures
            final(self).wf(),
            update_name_post(*old(self), *final(self), r, sender@, name@),
    {
        let mut info = get_org(&self.organizations, sender);
        info.name = name;
        org_upsert(&mut self.organizations, sender, info);
        Ok(())
    }

    /// Parses a caller-supplied decimal amount and adds it to the caller's
    /// running emissions total. A string that is not a plain decimal
    /// numeral within 128 bits is rejected; an addition that would exceed
    /// the representable range fails rather than wrap.
    pub fn add_organization_emission(&mut self, sender: &str, emissions: &str) -> (r: Result<
        (),
        ContractError,
    >)
        requires
            old(self).wf(),
        ensures
            final(self).wf(),
            add_emission_post(*old(self), *final(self), r, sender@, emissions@),
    {
        let add = match crate::text::parse_decimal(emissions) {
            Ok(v) => v,
            Err(e) => {
                return Err(e);
            },
        };
        let mut info = get_org(&self.organizations, sender);
        if info.emissions > u128::MAX - add {
            return Err(ContractError::Overflow);
        }
        info.emissions = info.emissions + add;
        org_upsert(&mut self.organizations, sender, info);
        Ok(())
    }

    /// Repays part of a debt: the calling borrower must hold at least
    /// `amount` credits and owe at least `amount` of debt. The amount moves
    /// from the borrower's credits to the lender's, the borrower's debt
    /// falls and its returned total rises by the same amount. The lender's
    /// record is written last, from the balance it had when the call
    /// started.
    pub fn execute_repay_tokens(&mut self, sender: &str, lender: &str, amount: u128) -> (r: Result<
        (),
        ContractError,
    >)
        requires
            old(self).wf(),
        ensures
            final(self).wf(),
            repay_tokens_post(*old(self), *final(self), r, sender@, lender@, amount),
    {
        let mut borrower_info = get_org(&self.organizations, sender);
        let lender_stale = get_org(&self.organizations, lender);
        if borrower_info.carbon_credits < amount {
            return Err(ContractError::NotEnoughCredits);
        }
        if borrower_info.debt < amount {
            return Err(ContractError::NotEnoughCredits);
        }
        if borrower_info.total_returned > u128::MAX - amount {
            return Err(ContractError::Overflow);
        }
        if lender_stale.carbon_credits > u128::MAX - amount {
            return Err(ContractError::Overflow);
        }
        borrower_info.carbon_credits = borrower_info.carbon_credits - amount;
        borrower_info.debt = borrower_info.debt - amount;
        borrower_info.total_returned = borrower_info.total_returned + amount;
        org_upsert(&mut self.organizations, sender, borrower_info);
        let mut lender_info = lender_stale;
        lender_info.carbon_credits = lender_info.carbon_credits + amount;
        org_upsert(&mut self.organizations, lender, lender_info);
        Ok(())
    }

    /// Opens a lend request from the calling borrower towards `lender`:
    /// the request takes the next id, opens Active, and records the
    /// borrower's eligibility score together with a deterministic proof
    /// artifact over both parties' ledger figures. No balance moves and no
    /// balance is checked until the lender responds. Every figure the
    /// score reads must fit in 32 bits, else the operation fails with
    /// `Overflow`.
    pub fn execute_request_tokens(
        &mut self,
        now: u64,
        sender: &str,
        lender: &str,
        amount: u128,
    ) -> (r: Result<u64, ContractError>)
        requires
            old(self).wf(),
        ensures
            final(self).wf(),
            request_tokens_post(*old(self), *final(self), r, now, sender@, lender@, amount),
    {
        let lender_info = get_org(&self.organizations, lender);
        let borrower_info = get_org(&self.organizations, sender);
        let b_emissions = match narrow_u32(borrower_info.emissions) {
            Ok(v) => v,
            Err(e) => {
                return Err(e);
            },
        };
        let b_returned = match narrow_u32(borrower_info.total_returned) {
            Ok(v) => v,
            Err(e) => {
                return Err(e);
            },
        };
        let b_borrowed = match narrow_u32(borrower_info.total_borrowed) {
            Ok(v) => v,
            Err(e) => {
                return Err(e);
            },
        };
        let b_debt = match narrow_u32(borrower_info.debt) {
            Ok(v) => v,
            Err(e) => {
                return Err(e);
            },
        };
        let b_credits = match narrow_u32(borrower_info.carbon_credits) {
            Ok(v) => v,
            Err(e) => {
                return Err(e);
            },
        };
        let b_reputation = match narrow_u32(borrower_info.reputation_score) {
            Ok(v) => v,
            Err(e) => {
                return Err(e);
            },
        };
        let l_credits = match narrow_u32(lender_info.carbon_credits) {
            Ok(v) => v,
            Err(e) => {
                return Err(e);
            },
        };
        let l_debt = match narrow_u32(lender_info.debt) {
            Ok(v) => v,
            Err(e) => {
                return Err(e);
            },
        };
        let score = compute_score(b_reputation, b_returned, b_debt, b_emissions, b_credits);
        let payload = crate::encoding::build_score_payload(
            b_emissions,
            b_returned,
            b_borrowed,
            b_debt,
            b_credits,
            b_reputation,
            l_credits,
            l_debt,
        );
        let proof_hex = crate::encoding::build_proof_string(&payload, score as u128);
        if self.lend_request_counter == u64::MAX {
            return Err(ContractError::Overflow);
        }
        let id = self.lend_request_counter;
        let request = LendRequest {
            id,
            borrower: sender.to_owned(),
            lender: lender.to_owned(),
            amount,
            eligibility_score: score as u128,
            proof_data: proof_hex,
            status: LentStatus::Active,
            time: now,
        };
        let ghost rv = request@;
        let ghost pre = self.lend_requests.deep_view();
        self.lend_requests.push(request);
        self.lend_request_counter = id + 1;
        proof {
            assert(self.lend_requests.deep_view() =~= pre.push(rv));
        }
        Ok(id)
    }

    /// Recomputes the borrower's eligibility score from the current ledger
    /// and, when the score clears the floor, stores an attestation keyed
    /// by `(borrower, lender)` and returns the score with the hex of the
    /// attestation bytes. This path is independent of the request/respond
    /// flow; the two are deliberately not linked.
    pub fn execute_verify_eligibility(
        &mut self,
        borrower: &str,
        lender: &str,
        _amount: u128,
    ) -> (r: Result<(u128, String), ContractError>)
        requires
            old(self).wf(),
        ensures
            final(self).wf(),
            verify_eligibility_post(*old(self), *final(self), r, borrower@, lender@),
    {
        let borrower_info = get_org(&self.organizations, borrower);
        let lender_info = get_org(&self.organizations, lender);
        let b_emissions = match narrow_u32(borrower_info.emissions) {
            Ok(v) => v,
            Err(e) => {
                return Err(e);
            },
        };
        let b_returned = match narrow_u32(borrower_info.total_returned) {
            Ok(v) => v,
            Err(e) => {
                return Err(e);
            },
        };
        let b_borrowed = match narrow_u32(borrower_info.total_borrowed) {
            Ok(v) => v,
            Err(e) => {
                return Err(e);
            },
        };
        let b_debt = match narrow_u32(borrower_info.debt) {
            Ok(v) => v,
            Err(e) => {
                return Err(e);
            },
        };
        let b_credits = match narrow_u32(borrower_info.carbon_credits) {
            Ok(v) => v,
            Err(e) => {
                return Err(e);
            },
        };
        let b_reputation = match narrow_u32(borrower_info.reputation_score) {
            Ok(v) => v,
            Err(e) => {
                return Err(e);
            },
        };
        let l_credits = match narrow_u32(lender_info.carbon_credits) {
            Ok(v) => v,
            Err(e) => {
                return Err(e);
            },
        };
        let l_debt = match narrow_u32(lender_info.debt) {
            Ok(v) => v,
            Err(e) => {
                return Err(e);
            },
        };
        let score = compute_score(b_reputation, b_returned, b_debt, b_emissions, b_credits);
        if score == 0 {
            return Err(ContractError::BorrowerNotEligible);
        }
        let bytes = crate::encoding::build_attest_payload(
            b_emissions,
            b_returned,
            b_borrowed,
            b_debt,
            b_credits,
            b_reputation,
            l_credits,
            l_debt,
            score,
        );
        let proof_hex = crate::encoding::hex_encode(bytes.as_slice());
        proof_upsert(&mut self.proofs, borrower, lender, bytes);
        Ok((score as u128, proof_hex))
    }

    /// The designated lender answers a lend request with "accepted" or
    /// "denied" (matched after ASCII case folding). Denying closes the
    /// request with no balance effect. Accepting requires the lender to
    /// hold the requested amount; it then moves the amount to the
    /// borrower's credits and raises the borrower's debt, borrow counter
    /// and borrowed total, all in one atomic step, and closes the request
    /// as Approved. Returns whether the request was accepted.
    pub fn execute_lend_tokens(
        &mut self,
        sender: &str,
        lend_request_id: u64,
        response: &str,
    ) -> (r: Result<bool, ContractError>)
        requires
            old(self).wf(),
        ensures
            final(self).wf(),
            lend_tokens_post(*old(self), *final(self), r, sender@, lend_request_id, response@),
    {
        if lend_request_id >= self.lend_requests.len() as u64 {
            return Err(ContractError::RequestNotFound);
        }
        let idx = lend_request_id as usize;
        let same_lender = crate::text::compare_str(
            self.lend_requests[idx].lender.as_str(),
            sender,
        ) == crate::text::StrCmp::Equal;
        if !same_lender {
            return Err(ContractError::Unauthorized);
        }
        if !(self.lend_requests[idx].status == LentStatus::Active) {
            return Err(ContractError::RequestNotActive);
        }
        let denied = crate::text::folded_equals(response, "denied");
        let accepted = crate::text::folded_equals(response, "accepted");
        if !denied && !accepted {
            return Err(ContractError::InvalidResponse);
        }
        let ghost pre_lends = self.lend_requests.deep_view();
        let ghost q = pre_lends[lend_request_id as int];
        if denied {
            self.lend_requests[idx].status = LentStatus::Rejected;
            proof {
                assert(self.lend_requests.deep_view() =~= pre_lends.update(
                    lend_request_id as int,
                    (LendRequestV { status: LentStatus::Rejected, ..q }),
                ));
            }
            return Ok(false);
        }
        let amount = self.lend_requests[idx].amount;
        let lender_info = get_org(&self.organizations, sender);
        let borrower_info = get_org(
            &self.organizations,
            self.lend_requests[idx].borrower.as_str(),
        );
        if lender_info.carbon_credits < amount {
            return Err(ContractError::NotEnoughCredits);
        }
        if borrower_info.carbon_credits > u128::MAX - amount {
            return Err(ContractError::Overflow);
        }
        if borrower_info.debt > u128::MAX - amount {
            return Err(ContractError::Overflow);
        }
        if borrower_info.times_borrowed == u32::MAX {
            return Err(ContractError::Overflow);
        }
        if borrower_info.total_borrowed > u128::MAX - amount {
            return Err(ContractError::Overflow);
        }
        let mut new_lender = lender_info;
        new_lender.carbon_credits = new_lender.carbon_credits - amount;
        let mut new_borrower = borrower_info;
        new_borrower.carbon_credits = new_borrower.carbon_credits + amount;
        new_borrower.debt = new_borrower.debt + amount;
        new_borrower.times_borrowed = new_borrower.times_borrowed + 1;
        new_borrower.total_borrowed = new_borrower.total_borrowed + amount;
        org_upsert(&mut self.organizations, sender, new_lender);
        org_upsert(
            &mut self.organizations,
            self.lend_requests[idx].borrower.as_str(),
            new_borrower,
        );
        self.lend_requests[idx].status = LentStatus::Approved;
        proof {
            assert(self.lend_requests.deep_view() =~= pre_lends.update(
                lend_request_id as int,
                (LendRequestV { status: LentStatus::Approved, ..q }),
            ));
        }
        Ok(true)
    }

    /// Closes the vote on a claim, once its deadline has strictly passed.
    /// Anyone may call this; a claim already finalized is refused. The
    /// claim is approved exactly when the yes tally is at least the no
    /// tally (a tie approves). Approval credits the claimant the demanded
    /// tokens and raises the global credit total by the same amount; then
    /// every voter who sided with the outcome gains one reputation point.
    /// All of it commits atomically, or nothing does.
    #[verifier::loop_isolation(false)]
    pub fn execute_finalize_voting(&mut self, now: u64, claim_id: u64) -> (r: Result<
        ClaimStatus,
        ContractError,
    >)
        requires
            old(self).wf(),
        ensures
            final(self).wf(),
            finalize_voting_post(*old(self), *final(self), r, now, claim_id),
    {
        if claim_id >= self.claims.len() as u64 {
            return Err(ContractError::ClaimNotFound);
        }
        let idx = claim_id as usize;
        if now <= self.claims[idx].voting_end_time {
            return Err(ContractError::VotingNotEnded);
        }
        if !(self.claims[idx].status == ClaimStatus::Active) {
            return Err(ContractError::ClaimNotActive);
        }
        let approved = self.claims[idx].yes_votes >= self.claims[idx].no_votes;
        let demanded = self.claims[idx].demanded_tokens;
        let ghost c = self.claims.deep_view()[claim_id as int];
        let ghost votes_v = self.votes.deep_view();
        let mut work = crate::state::copy_orgs(&self.organizations);
        if approved {
            let mut org = get_org(&work, self.claims[idx].organization.as_str());
            if org.carbon_credits > u128::MAX - demanded {
                return Err(ContractError::Overflow);
            }
            if self.config.total_carbon_credits > u128::MAX - demanded {
                return Err(ContractError::Overflow);
            }
            org.carbon_credits = org.carbon_credits + demanded;
            org_upsert(&mut work, self.claims[idx].organization.as_str(), org);
        }
        proof {
            assert(votes_v.take(0) =~= Seq::<VoteV>::empty());
            assert forall|a: Seq<char>| #![auto]
                org_lookup(work.deep_view(), a) == finalized_org(
                    old(self).org_of(a),
                    a,
                    c.organization,
                    c.demanded_tokens,
                    approved,
                    votes_v.take(0),
                    claim_id as nat,
                ) by {}
        }
        let n_votes = self.votes.len();
        let mut k: usize = 0;
        while k < n_votes
            invariant
                old(self).wf(),
                *self == *old(self),
                n_votes == votes_v.len(),
                votes_v == self.votes.deep_view(),
                c == old(self).claims_v()[claim_id as int],
                (claim_id as nat) < old(self).claims_v().len(),
                approved == (c.yes_votes >= c.no_votes),
                demanded == c.demanded_tokens,
                k <= n_votes,
                orgs_sorted(work.deep_view()),
                forall|a: Seq<char>| #![auto]
                    org_lookup(work.deep_view(), a) == finalized_org(
                        old(self).org_of(a),
                        a,
                        c.organization,
                        c.demanded_tokens,
                        approved,
                        votes_v.take(k as int),
                        claim_id as nat,
                    ),
                forall|a: Seq<char>| #![auto]
                    has_org(work.deep_view(), a) == (has_org(old(self).orgs_v(), a) || (approved
                        && a == c.organization) || voted_correctly(
                        votes_v.take(k as int),
                        claim_id as nat,
                        a,
                        approved,
                    )),
                forall|i: int|
                    0 <= i < k && (#[trigger] votes_v[i]).claim_id == claim_id as nat
                        && vote_correct(votes_v[i].vote, approved) ==> old(self).org_of(
                        votes_v[i].voter,
                    ).reputation_score < u128::MAX,
            decreases n_votes - k,
        {
            let ghost pre_work = work.deep_view();
            if self.votes[k].claim_id == claim_id {
                let vote = self.votes[k].vote;
                let correct = (vote == VoteOption::Yes && approved) || (vote == VoteOption::No
                    && !approved);
                if correct {
                    let ghost voter = votes_v[k as int].voter;
                    proof {
                        if voted_correctly(
                            votes_v.take(k as int),
                            claim_id as nat,
                            voter,
                            approved,
                        ) {
                            let i = choose|i: int|
                                0 <= i < k && votes_v.take(k as int)[i].claim_id
                                    == claim_id as nat && votes_v.take(k as int)[i].voter
                                    == voter && vote_correct(
                                    votes_v.take(k as int)[i].vote,
                                    approved,
                                );
                            assert(votes_v[i].claim_id == votes_v[k as int].claim_id
                                && votes_v[i].voter == votes_v[k as int].voter);
                            assert(false);
                        }
                        assert(!voted_correctly(
                            votes_v.take(k as int),
                            claim_id as nat,
                            voter,
                            approved,
                        ));
                    }
                    let mut org = get_org(&work, self.votes[k].voter.as_str());
                    proof {
                        assert(org@ == org_lookup(work.deep_view(), voter));
                        assert(org@.reputation_score == old(self).org_of(
                            voter,
                        ).reputation_score);
                    }
                    if org.reputation_score == u128::MAX {
                        proof {
                            assert(old(self).votes_v() == votes_v);
                            assert((#[trigger] old(self).votes_v()[k as int]).claim_id
                                == claim_id as nat && vote_correct(
                                old(self).votes_v()[k as int].vote,
                                approved,
                            ) && old(self).org_of(
                                old(self).votes_v()[k as int].voter,
                            ).reputation_score == u128::MAX);
                        }
                        return Err(ContractError::Overflow);
                    }
                    org.reputation_score = org.reputation_score + 1;
                    org_upsert(&mut work, self.votes[k].voter.as_str(), org);
                    proof {
                        lemma_voted_take_step(votes_v, k as int, claim_id as nat, approved);
                        assert forall|a: Seq<char>| #![auto]
                            org_lookup(work.deep_view(), a) == finalized_org(
                                old(self).org_of(a),
                                a,
                                c.organization,
                                c.demanded_tokens,
                                approved,
                                votes_v.take(k + 1),
                                claim_id as nat,
                            ) by {
                            if a != voter {
                                assert(org_lookup(work.deep_view(), a) == org_lookup(
                                    pre_work,
                                    a,
                                ));
                            }
                        }
                    }
                } else {
                    proof {
                        lemma_voted_take_step(votes_v, k as int, claim_id as nat, approved);
                    }
                }
            } else {
                proof {
                    lemma_voted_take_step(votes_v, k as int, claim_id as nat, approved);
                }
            }
            k = k + 1;
        }
        proof {
            assert(votes_v.take(n_votes as int) =~= votes_v);
        }
        let st = if approved {
            ClaimStatus::Approved
        } else {
            ClaimStatus::Rejected
        };
        let ghost pre_claims = self.claims.deep_view();
        self.organizations = work;
        self.claims[idx].status = st;
        if approved {
            let t = self.config.total_carbon_credits;
            self.config.total_carbon_credits = t + demanded;
        }
        proof {
            assert(self.claims.deep_view() =~= pre_claims.update(
                claim_id as int,
                (ClaimV { status: st, ..c }),
            ));
        }
        Ok(st)
    }

    /// Dispatches one command from the host to its handler. The caller
    /// identity in `sender` is supplied and trusted by the host; `now` is
    /// the block time in seconds. Each arm promises exactly its handler's
    /// transition relation.
    pub fn execute(&mut self, now: u64, sender: &str, msg: ExecuteMsg) -> (r: Result<
        ExecuteResponse,
        ContractError,
    >)
        requires
            old(self).wf(),
        ensures
            final(self).wf(),
            match msg {
                ExecuteMsg::UpdateOrganizationName { name } => match r {
                    Ok(resp) => resp == ExecuteResponse::NameUpdated && update_name_post(
                        *old(self),
                        *final(self),
                        Ok::<(), ContractError>(()),
                        sender@,
                        name@,
                    ),
                    Err(e) => update_name_post(
                        *old(self),
                        *final(self),
                        Err::<(), ContractError>(e),
                        sender@,
                        name@,
                    ),
                },
                ExecuteMsg::AddOrganizationEmission { emissions } => match r {
                    Ok(resp) => resp == ExecuteResponse::EmissionAdded && add_emission_post(
                        *old(self),
                        *final(self),
                        Ok::<(), ContractError>(()),
                        sender@,
                        emissions@,
                    ),
                    Err(e) => add_emission_post(
                        *old(self),
                        *final(self),
                        Err::<(), ContractError>(e),
                        sender@,
                        emissions@,
                    ),
                },
                ExecuteMsg::CreateClaim {
                    longitudes,
                    latitudes,
                    time_started,
                    time_ended,
                    demanded_tokens,
                    ipfs_hashes,
                } => match r {
                    Ok(resp) => match resp {
                        ExecuteResponse::ClaimCreated { claim_id } => create_claim_post(
                            *old(self),
                            *final(self),
                            Ok::<u64, ContractError>(claim_id),
                            now,
                            sender@,
                            longitudes.deep_view(),
                            latitudes.deep_view(),
                            time_started,
                            time_ended,
                            demanded_tokens,
                            ipfs_hashes.deep_view(),
                        ),
                        _ => false,
                    },
                    Err(e) => create_claim_post(
                        *old(self),
                        *final(self),
                        Err::<u64, ContractError>(e),
                        now,
                        sender@,
                        longitudes.deep_view(),
                        latitudes.deep_view(),
                        time_started,
                        time_ended,
                        demanded_tokens,
                        ipfs_hashes.deep_view(),
                    ),
                },
                ExecuteMsg::CreateLendToken { lender, amount } => match r {
                    Ok(resp) => match resp {
                        ExecuteResponse::LendRequested { request_id } => request_tokens_post(
                            *old(self),
                            *final(self),
                            Ok::<u64, ContractError>(request_id),
                            now,
                            sender@,
                            lender@,
                            amount,
                        ),
                        _ => false,
                    },
                    Err(e) => request_tokens_post(
                        *old(self),
                        *final(self),
                        Err::<u64, ContractError>(e),
                        now,
                        sender@,
                        lender@,
                        amount,
                    ),
                },
                ExecuteMsg::CastVote { claim_id, vote } => match r {
                    Ok(resp) => resp == ExecuteResponse::VoteCast && cast_vote_post(
                        *old(self),
                        *final(self),
                        Ok::<(), ContractError>(()),
                        now,
                        sender@,
                        claim_id,
                        vote,
                    ),
                    Err(e) => cast_vote_post(
                        *old(self),
                        *final(self),
                        Err::<(), ContractError>(e),
                        now,
                        sender@,
                        claim_id,
                        vote,
                    ),
                },
                ExecuteMsg::FinalizeVoting { claim_id } => match r {
                    Ok(resp) => match resp {
                        ExecuteResponse::VotingFinalized { status } => finalize_voting_post(
                            *old(self),
                            *final(self),
                            Ok::<ClaimStatus, ContractError>(status),
                            now,
                            claim_id,
                        ),
                        _ => false,
                    },
                    Err(e) => finalize_voting_post(
                        *old(self),
                        *final(self),
                        Err::<ClaimStatus, ContractError>(e),
                        now,
                        claim_id,
                    ),
                },
                ExecuteMsg::LendTokens { lend_request_id, response } => match r {
                    Ok(resp) => match resp {
                        ExecuteResponse::LendResponded { accepted } => lend_tokens_post(
                            *old(self),
                            *final(self),
                            Ok::<bool, ContractError>(accepted),
                            sender@,
                            lend_request_id,
                            response@,
                        ),
                        _ => false,
                    },
                    Err(e) => lend_tokens_post(
                        *old(self),
                        *final(self),
                        Err::<bool, ContractError>(e),
                        sender@,
                        lend_request_id,
                        response@,
                    ),
                },
                ExecuteMsg::RepayTokens { lender, amount } => match r {
                    Ok(resp) => resp == ExecuteResponse::TokensRepaid && repay_tokens_post(
                        *old(self),
                        *final(self),
                        Ok::<(), ContractError>(()),
                        sender@,
                        lender@,
                        amount,
                    ),
                    Err(e) => repay_tokens_post(
                        *old(self),
                        *final(self),
                        Err::<(), ContractError>(e),
                        sender@,
                        lender@,
                        amount,
                    ),
                },
                ExecuteMsg::VerifyEligibility { borrower, amount, lender } => match r {
                    Ok(resp) => match resp {
                        ExecuteResponse::EligibilityVerified {
                            eligibility_score,
                            proof_hex,
                        } => verify_eligibility_post(
                            *old(self),
                            *final(self),
                            Ok::<(u128, String), ContractError>((eligibility_score, proof_hex)),
                            borrower@,
                            lender@,
                        ),
                        _ => false,
                    },
                    Err(e) => verify_eligibility_post(
                        *old(self),
                        *final(self),
                        Err::<(u128, String), ContractError>(e),
                        borrower@,
                        lender@,
                    ),
                },
            },
    {
        match msg {
            ExecuteMsg::UpdateOrganizationName { name } => {
                match self.execute_update_organization_name(sender, name) {
                    Ok(_) => Ok(ExecuteResponse::NameUpdated),
                    Err(e) => Err(e),
                }
            },
            ExecuteMsg::AddOrganizationEmission { emissions } => {
                match self.add_organization_emission(sender, emissions.as_str()) {
                    Ok(_) => Ok(ExecuteResponse::EmissionAdded),
                    Err(e) => Err(e),
                }
            },
            ExecuteMsg::CreateClaim {
                longitudes,
                latitudes,
                time_started,
                time_ended,
                demanded_tokens,
                ipfs_hashes,
            } => {
                match self.execute_create_claim(
                    now,
                    sender,
                    longitudes,
                    latitudes,
                    time_started,
                    time_ended,
                    demanded_tokens,
                    ipfs_hashes,
                ) {
                    Ok(id) => Ok(ExecuteResponse::ClaimCreated { claim_id: id }),
                    Err(e) => Err(e),
                }
            },
            ExecuteMsg::CreateLendToken { lender, amount } => {
                match self.execute_request_tokens(now, sender, lender.as_str(), amount) {
                    Ok(id) => Ok(ExecuteResponse::LendRequested { request_id: id }),
                    Err(e) => Err(e),
                }
            },
            ExecuteMsg::CastVote { claim_id, vote } => {
                match self.execute_cast_vote(now, sender, claim_id, vote) {
                    Ok(_) => Ok(ExecuteResponse::VoteCast),
                    Err(e) => Err(e),
                }
            },
            ExecuteMsg::FinalizeVoting { claim_id } => {
                match self.execute_finalize_voting(now, claim_id) {
                    Ok(st) => Ok(ExecuteResponse::VotingFinalized { status: st }),
                    Err(e) => Err(e),
                }
            },
            ExecuteMsg::LendTokens { lend_request_id, response } => {
                match self.execute_lend_tokens(sender, lend_request_id, response.as_str()) {
                    Ok(b) => Ok(ExecuteResponse::LendResponded { accepted: b }),
                    Err(e) => Err(e),
                }
            },
            ExecuteMsg::RepayTokens { lender, amount } => {
                match self.execute_repay_tokens(sender, lender.as_str(), amount) {
                    Ok(_) => Ok(ExecuteResponse::TokensRepaid),
                    Err(e) => Err(e),
                }
            },
            ExecuteMsg::VerifyEligibility { borrower, amount, lender } => {
                match self.execute_verify_eligibility(borrower.as_str(), lender.as_str(), amount) {
                    Ok(p) => Ok(
                        ExecuteResponse::EligibilityVerified {
                            eligibility_score: p.0,
                            proof_hex: p.1,
                        },
                    ),
                    Err(e) => Err(e),
                }
            },
        }
    }
}

} // verus!
