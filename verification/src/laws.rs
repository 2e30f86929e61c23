//! The ledger's laws: properties that hold across operations, stated over
//! the transition predicates of the commands and proved once and for all.

use vstd::prelude::*;

verus! {

use crate::contract::{
    cast_vote_post, clamped_score, finalize_voting_post, lend_tokens_post, repay_tokens_post,
    voted_correctly,
};
use crate::error::ContractError;
use crate::query::{cut_after, lemma_cut_after_splits, query_limit};
use crate::state::{ClaimStatus, OrgEntryV, State};
use crate::text::lex_lt;

/// Single vote: for every (claim, voter) pair at most one vote is ever
/// recorded. In a well-formed ledger, two vote records that agree on the
/// claim and the voter are the same record.
pub proof fn lemma_single_vote(s: State, i: int, j: int)
    requires
        s.wf(),
        0 <= i < s.votes_v().len(),
        0 <= j < s.votes_v().len(),
        s.votes_v()[i].claim_id == s.votes_v()[j].claim_id,
        s.votes_v()[i].voter == s.votes_v()[j].voter,
    ensures
        i == j,
{
}

/// Single vote, at the command: a second vote by the same address on the
/// same claim is refused with `AlreadyVoted` and changes nothing, tallies
/// included.
pub proof fn lemma_second_vote_rejected(
    pre: State,
    post: State,
    r: Result<(), ContractError>,
    now: u64,
    sender: Seq<char>,
    claim_id: u64,
    vote: crate::state::VoteOption,
)
    requires
        cast_vote_post(pre, post, r, now, sender, claim_id, vote),
        (claim_id as nat) < pre.claims_v().len(),
        now as nat <= pre.claims_v()[claim_id as int].voting_end_time,
        pre.has_vote(claim_id as nat, sender),
    ensures
        r == Err::<(), ContractError>(ContractError::AlreadyVoted),
        post == pre,
{
}

/// Deadline enforcement, voting side: a vote after the claim's deadline
/// (`now > voting_end_time`) is refused with `VotingEnded` and changes
/// nothing. At `now == voting_end_time` this does not apply: voting is
/// still open.
pub proof fn lemma_vote_after_deadline_rejected(
    pre: State,
    post: State,
    r: Result<(), ContractError>,
    now: u64,
    sender: Seq<char>,
    claim_id: u64,
    vote: crate::state::VoteOption,
)
    requires
        cast_vote_post(pre, post, r, now, sender, claim_id, vote),
        (claim_id as nat) < pre.claims_v().len(),
        now as nat > pre.claims_v()[claim_id as int].voting_end_time,
    ensures
        r == Err::<(), ContractError>(ContractError::VotingEnded),
        post == pre,
{
}

/// Deadline enforcement, finalization side: finalizing at or before the
/// deadline (`now <= voting_end_time`) is refused with `VotingNotEnded`
/// and changes nothing. Together with the previous law, the single
/// instant `now == voting_end_time` permits voting but not finalization.
pub proof fn lemma_finalize_before_deadline_rejected(
    pre: State,
    post: State,
    r: Result<ClaimStatus, ContractError>,
    now: u64,
    claim_id: u64,
)
    requires
        finalize_voting_post(pre, post, r, now, claim_id),
        (claim_id as nat) < pre.claims_v().len(),
        now as nat <= pre.claims_v()[claim_id as int].voting_end_time,
    ensures
        r == Err::<ClaimStatus, ContractError>(ContractError::VotingNotEnded),
        post == pre,
{
}

/// Tie-break: a finalization that succeeds on a claim with equal tallies
/// approves it.
pub proof fn lemma_tie_break_approves(
    pre: State,
    post: State,
    r: Result<ClaimStatus, ContractError>,
    now: u64,
    claim_id: u64,
)
    requires
        finalize_voting_post(pre, post, r, now, claim_id),
        (claim_id as nat) < pre.claims_v().len(),
        pre.claims_v()[claim_id as int].yes_votes == pre.claims_v()[claim_id as int].no_votes,
        r is Ok,
    ensures
        r == Ok::<ClaimStatus, ContractError>(ClaimStatus::Approved),
        post.claims_v()[claim_id as int].status == ClaimStatus::Approved,
{
}

/// Credit conservation: an accepted lend of amount A moves exactly A from
/// the lender's credits to the borrower's in the same call; the sum over
/// the two accounts is invariant. Stated for distinct parties: a request
/// whose borrower and lender are the same address overwrites one account
/// twice and does not conserve the sum.
pub proof fn lemma_lend_conserves_credits(
    pre: State,
    post: State,
    r: Result<bool, ContractError>,
    sender: Seq<char>,
    lend_request_id: u64,
    response: Seq<char>,
)
    requires
        lend_tokens_post(pre, post, r, sender, lend_request_id, response),
        (lend_request_id as nat) < pre.lends_v().len(),
        pre.lends_v()[lend_request_id as int].borrower != sender,
        r == Ok::<bool, ContractError>(true),
    ensures
        ({
            let q = pre.lends_v()[lend_request_id as int];
            &&& post.org_of(sender).carbon_credits == pre.org_of(sender).carbon_credits
                - q.amount
            &&& post.org_of(q.borrower).carbon_credits == pre.org_of(q.borrower).carbon_credits
                + q.amount
            &&& post.org_of(sender).carbon_credits + post.org_of(q.borrower).carbon_credits
                == pre.org_of(sender).carbon_credits + pre.org_of(q.borrower).carbon_credits
        }),
{
}

/// Debt conservation on repay: repaying amount A lowers the borrower's
/// credits and debt by A, raises its returned total by A, and raises the
/// lender's credits by A. Stated for distinct parties: a self-repayment
/// overwrites one account twice.
pub proof fn lemma_repay_moves_balances(
    pre: State,
    post: State,
    r: Result<(), ContractError>,
    sender: Seq<char>,
    lender: Seq<char>,
    amount: u128,
)
    requires
        repay_tokens_post(pre, post, r, sender, lender, amount),
        sender != lender,
        r is Ok,
    ensures
        post.org_of(sender).carbon_credits == pre.org_of(sender).carbon_credits - amount,
        post.org_of(sender).debt == pre.org_of(sender).debt - amount,
        post.org_of(sender).total_returned == pre.org_of(sender).total_returned + amount,
        post.org_of(lender).carbon_credits == pre.org_of(lender).carbon_credits + amount,
        post.org_of(sender).carbon_credits + post.org_of(lender).carbon_credits == pre.org_of(
            sender,
        ).carbon_credits + pre.org_of(lender).carbon_credits,
{
}

/// Debt conservation on repay, failure side: repaying more than the
/// current credits or the current debt is refused with `NotEnoughCredits`
/// and changes nothing.
pub proof fn lemma_repay_insufficient_rejected(
    pre: State,
    post: State,
    r: Result<(), ContractError>,
    sender: Seq<char>,
    lender: Seq<char>,
    amount: u128,
)
    requires
        repay_tokens_post(pre, post, r, sender, lender, amount),
        pre.org_of(sender).carbon_credits < amount || pre.org_of(sender).debt < amount,
    ensures
        r == Err::<(), ContractError>(ContractError::NotEnoughCredits),
        post == pre,
{
}

/// Reputation: after a successful finalization, a voter on the winning
/// side gains exactly one reputation point, a voter on the losing side
/// gains none, and an account that neither voted on the claim nor (on
/// approval) created it is untouched entirely.
pub proof fn lemma_reputation_after_finalize(
    pre: State,
    post: State,
    r: Result<ClaimStatus, ContractError>,
    now: u64,
    claim_id: u64,
)
    requires
        finalize_voting_post(pre, post, r, now, claim_id),
        (claim_id as nat) < pre.claims_v().len(),
        r is Ok,
    ensures
        ({
            let c = pre.claims_v()[claim_id as int];
            let approved = c.yes_votes >= c.no_votes;
            &&& forall|a: Seq<char>| #![auto]
                voted_correctly(pre.votes_v(), claim_id as nat, a, approved) ==> post.org_of(
                    a,
                ).reputation_score == pre.org_of(a).reputation_score + 1
            &&& forall|a: Seq<char>| #![auto]
                !voted_correctly(pre.votes_v(), claim_id as nat, a, approved) ==> post.org_of(
                    a,
                ).reputation_score == pre.org_of(a).reputation_score
            &&& forall|a: Seq<char>| #![auto]
                (!voted_correctly(pre.votes_v(), claim_id as nat, a, approved) && !(approved && a
                    == c.organization)) ==> post.org_of(a) == pre.org_of(a)
        }),
{
}

/// Tallies are the votes: in a well-formed ledger, every claim's stored
/// yes and no tallies equal the counts of its recorded votes.
pub proof fn lemma_tallies_are_votes(s: State, j: int)
    requires
        s.wf(),
        0 <= j < s.claims_v().len(),
    ensures
        s.claims_v()[j].yes_votes == crate::state::count_vote(
            s.votes_v(),
            j as nat,
            crate::state::VoteOption::Yes,
        ),
        s.claims_v()[j].no_votes == crate::state::count_vote(
            s.votes_v(),
            j as nat,
            crate::state::VoteOption::No,
        ),
{
}

/// A finalized claim is terminal: finalizing it again is refused with
/// `ClaimNotActive` and changes nothing, so credits cannot be minted
/// twice for one claim.
pub proof fn lemma_refinalization_rejected(
    pre: State,
    post: State,
    r: Result<ClaimStatus, ContractError>,
    now: u64,
    claim_id: u64,
)
    requires
        finalize_voting_post(pre, post, r, now, claim_id),
        (claim_id as nat) < pre.claims_v().len(),
        now as nat > pre.claims_v()[claim_id as int].voting_end_time,
        pre.claims_v()[claim_id as int].status != ClaimStatus::Active,
    ensures
        r == Err::<ClaimStatus, ContractError>(ContractError::ClaimNotActive),
        post == pre,
{
}

/// Eligibility score bounds: the computed score lies in `[0, 100]` for
/// every input ledger state.
pub proof fn lemma_score_bounds(
    reputation: nat,
    returned: nat,
    debt: nat,
    emissions: nat,
    credits: nat,
)
    ensures
        0 <= clamped_score(reputation, returned, debt, emissions, credits) <= 100,
{
}

/// Every account owes at most what it ever borrowed.
pub open spec fn accounts_solvent(s: State) -> bool {
    forall|a: Seq<char>| #![auto] s.org_of(a).debt <= s.org_of(a).total_borrowed
}

/// The cumulative figures of every account never decrease from `pre` to
/// `post`: borrowed and returned totals, the borrow counter, and the
/// emissions accumulator.
pub open spec fn accumulators_monotone(pre: State, post: State) -> bool {
    forall|a: Seq<char>| #![auto]
        pre.org_of(a).total_borrowed <= post.org_of(a).total_borrowed && pre.org_of(
            a,
        ).total_returned <= post.org_of(a).total_returned && pre.org_of(a).times_borrowed
            <= post.org_of(a).times_borrowed && pre.org_of(a).emissions <= post.org_of(
            a,
        ).emissions
}

/// Accepting a lend request raises a borrower's debt and borrowed total
/// together, so solvency survives it, and it only raises the cumulative
/// figures.
pub proof fn lemma_accounting_lend(
    pre: State,
    post: State,
    r: Result<bool, ContractError>,
    sender: Seq<char>,
    lend_request_id: u64,
    response: Seq<char>,
)
    requires
        lend_tokens_post(pre, post, r, sender, lend_request_id, response),
    ensures
        accounts_solvent(pre) ==> accounts_solvent(post),
        accumulators_monotone(pre, post),
{
}

/// A repayment lowers debt while leaving the borrowed total alone, so
/// solvency survives it, and it only raises the cumulative figures.
pub proof fn lemma_accounting_repay(
    pre: State,
    post: State,
    r: Result<(), ContractError>,
    sender: Seq<char>,
    lender: Seq<char>,
    amount: u128,
)
    requires
        repay_tokens_post(pre, post, r, sender, lender, amount),
    ensures
        accounts_solvent(pre) ==> accounts_solvent(post),
        accumulators_monotone(pre, post),
{
}

/// Finalization moves credits and reputation only, never the debt ledger
/// or the cumulative figures.
pub proof fn lemma_accounting_finalize(
    pre: State,
    post: State,
    r: Result<ClaimStatus, ContractError>,
    now: u64,
    claim_id: u64,
)
    requires
        finalize_voting_post(pre, post, r, now, claim_id),
    ensures
        accounts_solvent(pre) ==> accounts_solvent(post),
        accumulators_monotone(pre, post),
{
}

/// Adding emissions only raises the emissions accumulator and touches
/// nothing else in the debt ledger.
pub proof fn lemma_accounting_emission(
    pre: State,
    post: State,
    r: Result<(), ContractError>,
    sender: Seq<char>,
    emissions: Seq<char>,
)
    requires
        crate::contract::add_emission_post(pre, post, r, sender, emissions),
    ensures
        accounts_solvent(pre) ==> accounts_solvent(post),
        accumulators_monotone(pre, post),
{
}

/// Renaming an account changes no balance at all.
pub proof fn lemma_accounting_rename(
    pre: State,
    post: State,
    r: Result<(), ContractError>,
    sender: Seq<char>,
    name: Seq<char>,
)
    requires
        crate::contract::update_name_post(pre, post, r, sender, name),
    ensures
        accounts_solvent(pre) ==> accounts_solvent(post),
        accumulators_monotone(pre, post),
{
}

/// Pagination: the organization page after `start` holds at most `limit`
/// entries, every entry's address lies strictly after `start`, and the
/// page is a contiguous slice of the full ascending listing.
pub proof fn lemma_organizations_page(s: State, start: Seq<char>, limit: Option<u32>)
    requires
        s.wf(),
    ensures
        ({
            let v = s.orgs_v();
            let lo = cut_after(v, start);
            let lim = query_limit(limit);
            let hi = if lo + lim <= v.len() as int {
                lo + lim
            } else {
                v.len() as int
            };
            let page = v.subrange(lo, hi);
            &&& page.len() <= lim
            &&& forall|k: int|
                0 <= k < page.len() ==> lex_lt(start, (#[trigger] page[k]).address)
            &&& forall|k: int| 0 <= k < page.len() ==> page[k] == v[lo + k]
        }),
{
    lemma_cut_after_splits(s.orgs_v(), start);
}

} // verus!
