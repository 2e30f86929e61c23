//! The error taxonomy of the ledger.
//!
//! Every precondition failure aborts the whole call with one of these
//! values and no partial effect on the state.

use vstd::prelude::*;

verus! {

/// One value for each way a command can be refused. All are expected,
/// typed outcomes; no operation panics.
#[derive(Clone, Copy, Debug, PartialEq, Eq, Structural)]
pub enum ContractError {
    /// The caller is not the required counterparty.
    Unauthorized,
    /// An accept/deny decision string is neither recognized value.
    InvalidResponse,
    /// A referenced lend request id does not exist.
    RequestNotFound,
    /// A referenced claim id does not exist.
    ClaimNotFound,
    /// The lend request was already resolved.
    RequestNotActive,
    /// The claim was already finalized; it cannot be finalized again.
    ClaimNotActive,
    /// The action came after the claim's voting deadline.
    VotingEnded,
    /// The action came before the claim's voting deadline had passed.
    VotingNotEnded,
    /// The same address already voted on the same claim.
    AlreadyVoted,
    /// A balance is insufficient for a transfer, loan acceptance, or
    /// repayment.
    NotEnoughCredits,
    /// The computed eligibility score fails the eligibility floor.
    BorrowerNotEligible,
    /// An arithmetic operation on balances or counters would exceed the
    /// representable range.
    Overflow,
    /// A caller-supplied numeric string fails to parse.
    InvalidNumericInput,
}

impl ContractError {
    /// A short, stable description of the error.
    pub fn describe(&self) -> (r: &'static str)
        ensures
            r@ == match self {
                ContractError::Unauthorized => "Unauthorized"@,
                ContractError::InvalidResponse => "Invalid response"@,
                ContractError::RequestNotFound => "Request not found"@,
                ContractError::ClaimNotFound => "Claim not found"@,
                ContractError::RequestNotActive => "Request not active"@,
                ContractError::ClaimNotActive => "Claim not active"@,
                ContractError::VotingEnded => "Voting period has ended"@,
                ContractError::VotingNotEnded => "Voting period not ended yet"@,
                ContractError::AlreadyVoted => "Already voted"@,
                ContractError::NotEnoughCredits => "Not enough carbon credits"@,
                ContractError::BorrowerNotEligible => "Borrower not eligible"@,
                ContractError::Overflow => "Overflow"@,
                ContractError::InvalidNumericInput => "Invalid numeric input"@,
            },
    {
        match self {
            ContractError::Unauthorized => "Unauthorized",
            ContractError::InvalidResponse => "Invalid response",
            ContractError::RequestNotFound => "Request not found",
            ContractError::ClaimNotFound => "Claim not found",
            ContractError::RequestNotActive => "Request not active",
            ContractError::ClaimNotActive => "Claim not active",
            ContractError::VotingEnded => "Voting period has ended",
            ContractError::VotingNotEnded => "Voting period not ended yet",
            ContractError::AlreadyVoted => "Already voted",
            ContractError::NotEnoughCredits => "Not enough carbon credits",
            ContractError::BorrowerNotEligible => "Borrower not eligible",
            ContractError::Overflow => "Overflow",
            ContractError::InvalidNumericInput => "Invalid numeric input",
        }
    }
}

} // verus!
