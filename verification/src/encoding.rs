//! Hex encoding of the mock proof artifacts, and the artifact strings
//! themselves.
//!
//! The proof artifacts the lending subsystem records are audit strings
//! deterministically derived from ledger snapshots: a decimal payload,
//! hex-encoded by the `hex` crate, wrapped in fixed markers.

use vstd::prelude::*;

verus! {

use crate::text::dec_of;

/// The character for one hex nibble, lowercase.
pub open spec fn hex_digit(d: int) -> char {
    if d == 0 {
        '0'
    } else if d == 1 {
        '1'
    } else if d == 2 {
        '2'
    } else if d == 3 {
        '3'
    } else if d == 4 {
        '4'
    } else if d == 5 {
        '5'
    } else if d == 6 {
        '6'
    } else if d == 7 {
        '7'
    } else if d == 8 {
        '8'
    } else if d == 9 {
        '9'
    } else if d == 10 {
        'a'
    } else if d == 11 {
        'b'
    } else if d == 12 {
        'c'
    } else if d == 13 {
        'd'
    } else if d == 14 {
        'e'
    } else {
        'f'
    }
}

/// The lowercase hex rendering of a byte string: two digits per byte, high
/// nibble first.
pub open spec fn hex_of(b: Seq<u8>) -> Seq<char>
    decreases b.len(),
{
    if b.len() == 0 {
        Seq::empty()
    } else {
        hex_of(b.drop_last()) + seq![
            hex_digit(b.last() as int / 16),
            hex_digit(b.last() as int % 16),
        ]
    }
}

/// Relies on `hex::encode`: each input byte becomes two lowercase hex
/// digits, high nibble first, in input order.
#[verifier::external_body]
pub(crate) fn hex_encode(bytes: &[u8]) -> (s: String)
    ensures
        s@ == hex_of(bytes@),
{
    hex::encode(bytes)
}

/// The decimal payload a lending proof artifact is built from: the
/// borrower's ledger figures, then the lender's, concatenated without
/// separators.
pub open spec fn score_payload(
    emissions: nat,
    returned: nat,
    total_borrowed: nat,
    debt: nat,
    credits: nat,
    reputation: nat,
    lender_credits: nat,
    lender_debt: nat,
) -> Seq<char> {
    dec_of(emissions) + dec_of(returned) + dec_of(total_borrowed) + dec_of(debt) + dec_of(credits)
        + dec_of(reputation) + dec_of(lender_credits) + dec_of(lender_debt)
}

/// The UTF-8 bytes of [`score_payload`]; the payload is all ASCII digits,
/// so this is one byte per digit.
pub open spec fn payload_bytes(
    emissions: nat,
    returned: nat,
    total_borrowed: nat,
    debt: nat,
    credits: nat,
    reputation: nat,
    lender_credits: nat,
    lender_debt: nat,
) -> Seq<u8> {
    vstd::utf8::encode_utf8(
        score_payload(
            emissions,
            returned,
            total_borrowed,
            debt,
            credits,
            reputation,
            lender_credits,
            lender_debt,
        ),
    )
}

/// Builds the payload bytes for [`score_payload`].
pub fn build_score_payload(
    emissions: u32,
    returned: u32,
    total_borrowed: u32,
    debt: u32,
    credits: u32,
    reputation: u32,
    lender_credits: u32,
    lender_debt: u32,
) -> (v: Vec<u8>)
    ensures
        v@ == payload_bytes(
            emissions as nat,
            returned as nat,
            total_borrowed as nat,
            debt as nat,
            credits as nat,
            reputation as nat,
            lender_credits as nat,
            lender_debt as nat,
        ),
{
    let mut s = crate::text::dec_string(emissions as u128);
    s.append(crate::text::dec_string(returned as u128).as_str());
    s.append(crate::text::dec_string(total_borrowed as u128).as_str());
    s.append(crate::text::dec_string(debt as u128).as_str());
    s.append(crate::text::dec_string(credits as u128).as_str());
    s.append(crate::text::dec_string(reputation as u128).as_str());
    s.append(crate::text::dec_string(lender_credits as u128).as_str());
    s.append(crate::text::dec_string(lender_debt as u128).as_str());
    let v = s.as_str().as_bytes_vec();
    proof {
        assert(s@ =~= score_payload(
            emissions as nat,
            returned as nat,
            total_borrowed as nat,
            debt as nat,
            credits as nat,
            reputation as nat,
            lender_credits as nat,
            lender_debt as nat,
        ));
    }
    v
}

/// The decimal payload of an eligibility attestation: the same figures as
/// [`score_payload`], with the computed score appended.
pub open spec fn attest_payload(
    emissions: nat,
    returned: nat,
    total_borrowed: nat,
    debt: nat,
    credits: nat,
    reputation: nat,
    lender_credits: nat,
    lender_debt: nat,
    score: nat,
) -> Seq<char> {
    score_payload(
        emissions,
        returned,
        total_borrowed,
        debt,
        credits,
        reputation,
        lender_credits,
        lender_debt,
    ) + dec_of(score)
}

/// The UTF-8 bytes of [`attest_payload`]; all ASCII digits, one byte each.
pub open spec fn attest_payload_bytes(
    emissions: nat,
    returned: nat,
    total_borrowed: nat,
    debt: nat,
    credits: nat,
    reputation: nat,
    lender_credits: nat,
    lender_debt: nat,
    score: nat,
) -> Seq<u8> {
    vstd::utf8::encode_utf8(
        attest_payload(
            emissions,
            returned,
            total_borrowed,
            debt,
            credits,
            reputation,
            lender_credits,
            lender_debt,
            score,
        ),
    )
}

/// Builds the payload bytes for [`attest_payload`].
pub fn build_attest_payload(
    emissions: u32,
    returned: u32,
    total_borrowed: u32,
    debt: u32,
    credits: u32,
    reputation: u32,
    lender_credits: u32,
    lender_debt: u32,
    score: u32,
) -> (v: Vec<u8>)
    ensures
        v@ == attest_payload_bytes(
            emissions as nat,
            returned as nat,
            total_borrowed as nat,
            debt as nat,
            credits as nat,
            reputation as nat,
            lender_credits as nat,
            lender_debt as nat,
            score as nat,
        ),
{
    let mut s = crate::text::dec_string(emissions as u128);
    s.append(crate::text::dec_string(returned as u128).as_str());
    s.append(crate::text::dec_string(total_borrowed as u128).as_str());
    s.append(crate::text::dec_string(debt as u128).as_str());
    s.append(crate::text::dec_string(credits as u128).as_str());
    s.append(crate::text::dec_string(reputation as u128).as_str());
    s.append(crate::text::dec_string(lender_credits as u128).as_str());
    s.append(crate::text::dec_string(lender_debt as u128).as_str());
    s.append(crate::text::dec_string(score as u128).as_str());
    let v = s.as_str().as_bytes_vec();
    proof {
        assert(s@ =~= attest_payload(
            emissions as nat,
            returned as nat,
            total_borrowed as nat,
            debt as nat,
            credits as nat,
            reputation as nat,
            lender_credits as nat,
            lender_debt as nat,
            score as nat,
        ));
    }
    v
}

/// The full proof artifact string recorded with a lend request: the
/// hex-encoded payload between fixed markers, with the computed score at
/// the end.
pub open spec fn proof_string(payload: Seq<u8>, score: nat) -> Seq<char> {
    "mock_proof_"@ + hex_of(payload) + "_eligibility_"@ + dec_of(score)
}

/// Renders the proof artifact string for the given payload and score.
pub fn build_proof_string(payload: &Vec<u8>, score: u128) -> (s: String)
    ensures
        s@ == proof_string(payload@, score as nat),
{
    let mut s = String::new();
    s.append("mock_proof_");
    let hex = hex_encode(payload.as_slice());
    s.append(hex.as_str());
    s.append("_eligibility_");
    let score_str = crate::text::dec_string(score);
    s.append(score_str.as_str());
    proof {
        assert(s@ =~= proof_string(payload@, score as nat));
    }
    s
}

} // verus!
