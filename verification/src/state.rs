//! The ledger's data model: the singleton config, claims with their votes,
//! organization accounts, lend requests, recorded proof artifacts, and the
//! [`State`] value that owns them all.
//!
//! Each executable type has a mathematical view (`@`); contracts elsewhere
//! are stated over those views. Organization accounts are kept sorted by
//! address in the lexicographic code-point order, which is also the order
//! the listing query paginates in.

use vstd::prelude::*;

verus! {

use crate::text::{lex_lt, lemma_lex_trichotomy, lemma_lex_transitive, compare_str, StrCmp};

/// A vote for or against a claim.
#[derive(Clone, Copy, Debug, PartialEq, Eq, Structural)]
pub enum VoteOption {
    Yes,
    No,
}

/// The lifecycle of a claim: voting is open, then the claim is either
/// approved or rejected, once, forever.
#[derive(Clone, Copy, Debug, PartialEq, Eq, Structural)]
pub enum ClaimStatus {
    Active,
    Approved,
    Rejected,
}

/// The lifecycle of a lend request: open, then accepted or denied by the
/// lender, once, forever.
#[derive(Clone, Copy, Debug, PartialEq, Eq, Structural)]
pub enum LentStatus {
    Active,
    Approved,
    Rejected,
}

/// The view of a [`Config`].
pub ghost struct ConfigV {
    pub owner: Seq<char>,
    pub voting_period: nat,
    pub total_carbon_credits: nat,
}

/// The singleton configuration: the instantiating owner, the voting window
/// length in seconds, and the global running total of minted credits.
pub struct Config {
    pub owner: String,
    pub voting_period: u64,
    pub total_carbon_credits: u128,
}

impl View for Config {
    type V = ConfigV;

    open spec fn view(&self) -> ConfigV {
        ConfigV {
            owner: self.owner@,
            voting_period: self.voting_period as nat,
            total_carbon_credits: self.total_carbon_credits as nat,
        }
    }
}

/// The view of a [`Claim`].
pub ghost struct ClaimV {
    pub id: nat,
    pub organization: Seq<char>,
    pub longitudes: Seq<Seq<char>>,
    pub latitudes: Seq<Seq<char>>,
    pub time_started: nat,
    pub time_ended: nat,
    pub demanded_tokens: nat,
    pub ipfs_hashes: Seq<Seq<char>>,
    pub status: ClaimStatus,
    pub voting_end_time: nat,
    pub yes_votes: nat,
    pub no_votes: nat,
}

/// A geolocated emissions-reduction assertion, pending peer vote. The
/// coordinate lists and the time window are caller-trusted inputs: the core
/// deliberately does not validate them.
pub struct Claim {
    pub id: u64,
    pub organization: String,
    pub longitudes: Vec<String>,
    pub latitudes: Vec<String>,
    pub time_started: u64,
    pub time_ended: u64,
    pub demanded_tokens: u128,
    pub ipfs_hashes: Vec<String>,
    pub status: ClaimStatus,
    pub voting_end_time: u64,
    pub yes_votes: u128,
    pub no_votes: u128,
}

impl View for Claim {
    type V = ClaimV;

    open spec fn view(&self) -> ClaimV {
        ClaimV {
            id: self.id as nat,
            organization: self.organization@,
            longitudes: self.longitudes.deep_view(),
            latitudes: self.latitudes.deep_view(),
            time_started: self.time_started as nat,
            time_ended: self.time_ended as nat,
            demanded_tokens: self.demanded_tokens as nat,
            ipfs_hashes: self.ipfs_hashes.deep_view(),
            status: self.status,
            voting_end_time: self.voting_end_time as nat,
            yes_votes: self.yes_votes as nat,
            no_votes: self.no_votes as nat,
        }
    }
}

impl DeepView for Claim {
    type V = ClaimV;

    open spec fn deep_view(&self) -> ClaimV {
        self.view()
    }
}

/// The view of a [`Vote`].
pub ghost struct VoteV {
    pub claim_id: nat,
    pub voter: Seq<char>,
    pub vote: VoteOption,
}

/// One recorded vote. At most one record ever exists per
/// `(claim_id, voter)` pair; the record is never updated or deleted.
pub struct Vote {
    pub claim_id: u64,
    pub voter: String,
    pub vote: VoteOption,
}

impl View for Vote {
    type V = VoteV;

    open spec fn view(&self) -> VoteV {
        VoteV { claim_id: self.claim_id as nat, voter: self.voter@, vote: self.vote }
    }
}

impl DeepView for Vote {
    type V = VoteV;

    open spec fn deep_view(&self) -> VoteV {
        self.view()
    }
}

/// The view of a [`LendRequest`].
pub ghost struct LendRequestV {
    pub id: nat,
    pub borrower: Seq<char>,
    pub lender: Seq<char>,
    pub amount: nat,
    pub eligibility_score: nat,
    pub proof_data: Seq<char>,
    pub status: LentStatus,
    pub time: nat,
}

/// A proposed transfer of credits from a lender to a borrower, carrying the
/// eligibility score and proof artifact computed when it was created.
pub struct LendRequest {
    pub id: u64,
    pub borrower: String,
    pub lender: String,
    pub amount: u128,
    pub eligibility_score: u128,
    pub proof_data: String,
    pub status: LentStatus,
    pub time: u64,
}

impl View for LendRequest {
    type V = LendRequestV;

    open spec fn view(&self) -> LendRequestV {
        LendRequestV {
            id: self.id as nat,
            borrower: self.borrower@,
            lender: self.lender@,
            amount: self.amount as nat,
            eligibility_score: self.eligibility_score as nat,
            proof_data: self.proof_data@,
            status: self.status,
            time: self.time as nat,
        }
    }
}

impl DeepView for LendRequest {
    type V = LendRequestV;

    open spec fn deep_view(&self) -> LendRequestV {
        self.view()
    }
}

/// The view of an [`OrganizationInfo`].
pub ghost struct OrgV {
    pub reputation_score: nat,
    pub carbon_credits: nat,
    pub debt: nat,
    pub times_borrowed: nat,
    pub total_borrowed: nat,
    pub total_returned: nat,
    pub name: Seq<char>,
    pub emissions: nat,
}

/// A per-address account record, created lazily with all-zero defaults on
/// first reference.
pub struct OrganizationInfo {
    pub reputation_score: u128,
    pub carbon_credits: u128,
    pub debt: u128,
    pub times_borrowed: u32,
    pub total_borrowed: u128,
    pub total_returned: u128,
    pub name: String,
    pub emissions: u128,
}

impl View for OrganizationInfo {
    type V = OrgV;

    open spec fn view(&self) -> OrgV {
        OrgV {
            reputation_score: self.reputation_score as nat,
            carbon_credits: self.carbon_credits as nat,
            debt: self.debt as nat,
            times_borrowed: self.times_borrowed as nat,
            total_borrowed: self.total_borrowed as nat,
            total_returned: self.total_returned as nat,
            name: self.name@,
            emissions: self.emissions as nat,
        }
    }
}

/// The all-zero account an address starts from.
pub open spec fn default_org() -> OrgV {
    OrgV {
        reputation_score: 0,
        carbon_credits: 0,
        debt: 0,
        times_borrowed: 0,
        total_borrowed: 0,
        total_returned: 0,
        name: Seq::empty(),
        emissions: 0,
    }
}

impl Default for OrganizationInfo {
    /// The all-zero account record.
    fn default() -> (r: Self)
        ensures
            r@ == default_org(),
    {
        let r = OrganizationInfo {
            reputation_score: 0,
            carbon_credits: 0,
            debt: 0,
            times_borrowed: 0,
            total_borrowed: 0,
            total_returned: 0,
            name: String::new(),
            emissions: 0,
        };
        proof {
            assert(r@.name =~= default_org().name);
        }
        r
    }
}

impl Clone for OrganizationInfo {
    fn clone(&self) -> (r: Self)
        ensures
            r@ == self@,
    {
        OrganizationInfo {
            reputation_score: self.reputation_score,
            carbon_credits: self.carbon_credits,
            debt: self.debt,
            times_borrowed: self.times_borrowed,
            total_borrowed: self.total_borrowed,
            total_returned: self.total_returned,
            name: self.name.clone(),
            emissions: self.emissions,
        }
    }
}

/// The view of an [`OrgEntry`].
pub ghost struct OrgEntryV {
    pub address: Seq<char>,
    pub info: OrgV,
}

/// One entry of the organization ledger: an address and its account.
pub struct OrgEntry {
    pub address: String,
    pub info: OrganizationInfo,
}

impl View for OrgEntry {
    type V = OrgEntryV;

    open spec fn view(&self) -> OrgEntryV {
        OrgEntryV { address: self.address@, info: self.info@ }
    }
}

impl DeepView for OrgEntry {
    type V = OrgEntryV;

    open spec fn deep_view(&self) -> OrgEntryV {
        self.view()
    }
}

/// The view of a [`ProofRecord`].
pub ghost struct ProofV {
    pub borrower: Seq<char>,
    pub lender: Seq<char>,
    pub proof_bytes: Seq<u8>,
}

/// A stored eligibility attestation, keyed by `(borrower, lender)`; a later
/// attestation for the same pair overwrites the earlier one.
pub struct ProofRecord {
    pub borrower: String,
    pub lender: String,
    pub proof_bytes: Vec<u8>,
}

impl View for ProofRecord {
    type V = ProofV;

    open spec fn view(&self) -> ProofV {
        ProofV {
            borrower: self.borrower@,
            lender: self.lender@,
            proof_bytes: self.proof_bytes@,
        }
    }
}

impl DeepView for ProofRecord {
    type V = ProofV;

    open spec fn deep_view(&self) -> ProofV {
        self.view()
    }
}

/// The organization entries are strictly sorted by address, so every
/// address occurs at most once.
pub open spec fn orgs_sorted(s: Seq<OrgEntryV>) -> bool {
    forall|i: int, j: int| 0 <= i < j < s.len() ==> lex_lt(s[i].address, s[j].address)
}

/// Whether an account record exists for `a`.
pub open spec fn has_org(s: Seq<OrgEntryV>, a: Seq<char>) -> bool {
    exists|i: int| 0 <= i < s.len() && s[i].address == a
}

/// The index of the account record for `a`, if one exists.
pub open spec fn org_index(s: Seq<OrgEntryV>, a: Seq<char>) -> int {
    choose|i: int| 0 <= i < s.len() && s[i].address == a
}

/// The account of `a`: its stored record, or the all-zero default if none
/// was ever written.
pub open spec fn org_lookup(s: Seq<OrgEntryV>, a: Seq<char>) -> OrgV {
    if has_org(s, a) {
        s[org_index(s, a)].info
    } else {
        default_org()
    }
}

/// In a sorted ledger, the entry at `i` is the unique record for its
/// address.
pub proof fn lemma_org_at(s: Seq<OrgEntryV>, i: int)
    requires
        orgs_sorted(s),
        0 <= i < s.len(),
    ensures
        has_org(s, s[i].address),
        org_index(s, s[i].address) == i,
        org_lookup(s, s[i].address) == s[i].info,
{
    assert(has_org(s, s[i].address));
    let j = org_index(s, s[i].address);
    if i < j {
        lemma_lex_trichotomy(s[i].address, s[j].address);
    } else if j < i {
        lemma_lex_trichotomy(s[j].address, s[i].address);
    }
}

proof fn lemma_update_upsert(s: Seq<OrgEntryV>, i: int, e: OrgEntryV)
    requires
        orgs_sorted(s),
        0 <= i < s.len(),
        e.address == s[i].address,
    ensures
        orgs_sorted(s.update(i, e)),
        forall|a: Seq<char>| #![auto]
            has_org(s.update(i, e), a) == has_org(s, a),
        forall|a: Seq<char>| #![auto]
            org_lookup(s.update(i, e), a) == if a == e.address {
                e.info
            } else {
                org_lookup(s, a)
            },
{
    let t = s.update(i, e);
    assert(orgs_sorted(t));
    assert forall|a: Seq<char>| #![auto] has_org(t, a) == has_org(s, a) by {
        if has_org(t, a) {
            let k = org_index(t, a);
            assert(s[k].address == a);
        }
        if has_org(s, a) {
            let k = org_index(s, a);
            assert(t[k].address == a);
        }
    }
    assert forall|a: Seq<char>| #![auto]
        org_lookup(t, a) == if a == e.address {
            e.info
        } else {
            org_lookup(s, a)
        } by {
        if a == e.address {
            lemma_org_at(t, i);
        } else if has_org(t, a) {
            let k = org_index(t, a);
            assert(t[k].address == a);
            assert(k != i);
            lemma_org_at(t, k);
            lemma_org_at(s, k);
        }
    }
}

proof fn lemma_insert_upsert(s: Seq<OrgEntryV>, p: int, e: OrgEntryV)
    requires
        orgs_sorted(s),
        0 <= p <= s.len(),
        forall|k: int| 0 <= k < p ==> lex_lt(#[trigger] s[k].address, e.address),
        p < s.len() ==> lex_lt(e.address, s[p].address),
    ensures
        orgs_sorted(s.insert(p, e)),
        !has_org(s, e.address),
        forall|a: Seq<char>| #![auto]
            has_org(s.insert(p, e), a) == (has_org(s, a) || a == e.address),
        forall|a: Seq<char>| #![auto]
            org_lookup(s.insert(p, e), a) == if a == e.address {
                e.info
            } else {
                org_lookup(s, a)
            },
{
    let t = s.insert(p, e);
    s.insert_ensures(p, e);
    // every stored address differs from e.address
    assert forall|k: int| 0 <= k < s.len() implies s[k].address != e.address by {
        if k < p {
            lemma_lex_trichotomy(s[k].address, e.address);
        } else if k == p {
            lemma_lex_trichotomy(e.address, s[k].address);
        } else {
            lemma_lex_transitive(e.address, s[p].address, s[k].address);
            lemma_lex_trichotomy(e.address, s[k].address);
        }
    }
    assert forall|i: int, j: int| 0 <= i < j < t.len() implies lex_lt(
        t[i].address,
        t[j].address,
    ) by {
        if i < p && j < p {
            assert(t[i] == s[i] && t[j] == s[j]);
        } else if i < p && j == p {
            assert(t[i] == s[i]);
        } else if i < p && j > p {
            assert(t[i] == s[i] && t[j] == s[j - 1]);
        } else if i == p && j > p {
            assert(t[j] == s[j - 1]);
            if j - 1 > p {
                lemma_lex_transitive(e.address, s[p].address, s[j - 1].address);
            }
        } else {
            assert(t[i] == s[i - 1] && t[j] == s[j - 1]);
        }
    }
    assert forall|a: Seq<char>| #![auto]
        has_org(t, a) == (has_org(s, a) || a == e.address) by {
        if has_org(t, a) {
            let k = org_index(t, a);
            if k < p {
                assert(s[k].address == a);
            } else if k > p {
                assert(s[k - 1].address == a);
            }
        }
        if has_org(s, a) {
            let k = org_index(s, a);
            if k < p {
                assert(t[k].address == a);
            } else {
                assert(t[k + 1].address == a);
            }
        }
        assert(t[p].address == e.address);
    }
    assert forall|a: Seq<char>| #![auto]
        org_lookup(t, a) == if a == e.address {
            e.info
        } else {
            org_lookup(s, a)
        } by {
        if a == e.address {
            lemma_org_at(t, p);
        } else if has_org(t, a) {
            let k = org_index(t, a);
            assert(t[k].address == a);
            assert(k != p);
            lemma_org_at(t, k);
            if k < p {
                lemma_org_at(s, k);
            } else {
                lemma_org_at(s, k - 1);
            }
        }
    }
}

/// Finds the record for `addr` in a sorted ledger.
pub(crate) fn find_org(orgs: &Vec<OrgEntry>, addr: &str) -> (r: Option<usize>)
    requires
        orgs_sorted(orgs.deep_view()),
    ensures
        match r {
            Some(i) => i < orgs.deep_view().len() && has_org(orgs.deep_view(), addr@)
                && org_index(orgs.deep_view(), addr@) == i as int && org_lookup(
                orgs.deep_view(),
                addr@,
            ) == orgs.deep_view()[i as int].info,
            None => !has_org(orgs.deep_view(), addr@),
        },
{
    let ghost v = orgs.deep_view();
    let len = orgs.len();
    let mut i: usize = 0;
    while i < len
        invariant
            len == v.len(),
            v == orgs.deep_view(),
            orgs_sorted(v),
            i <= len,
            forall|k: int| 0 <= k < i ==> v[k].address != addr@,
        decreases len - i,
    {
        let c = compare_str(orgs[i].address.as_str(), addr);
        if c == StrCmp::Equal {
            proof {
                lemma_org_at(v, i as int);
            }
            return Some(i);
        }
        proof {
            lemma_lex_trichotomy(v[i as int].address, addr@);
        }
        i = i + 1;
    }
    proof {
        if has_org(v, addr@) {
            let k = org_index(v, addr@);
            assert(v[k].address == addr@);
        }
    }
    None
}

/// Reads the account of `addr`, or the all-zero default if none is stored.
pub(crate) fn get_org(orgs: &Vec<OrgEntry>, addr: &str) -> (o: OrganizationInfo)
    requires
        orgs_sorted(orgs.deep_view()),
    ensures
        o@ == org_lookup(orgs.deep_view(), addr@),
{
    match find_org(orgs, addr) {
        Some(i) => orgs[i].info.clone(),
        None => OrganizationInfo::default(),
    }
}

/// Writes `info` as the account of `addr`, inserting or overwriting, and
/// keeps the ledger sorted.
pub(crate) fn org_upsert(orgs: &mut Vec<OrgEntry>, addr: &str, info: OrganizationInfo)
    requires
        orgs_sorted(old(orgs).deep_view()),
    ensures
        orgs_sorted(final(orgs).deep_view()),
        forall|a: Seq<char>| #![auto]
            has_org(final(orgs).deep_view(), a) == (has_org(old(orgs).deep_view(), a) || a
                == addr@),
        forall|a: Seq<char>| #![auto]
            org_lookup(final(orgs).deep_view(), a) == if a == addr@ {
                info@
            } else {
                org_lookup(old(orgs).deep_view(), a)
            },
{
    let ghost v = orgs.deep_view();
    let ghost e = OrgEntryV { address: addr@, info: info@ };
    let len = orgs.len();
    let mut i: usize = 0;
    while i < len
        invariant
            len == v.len(),
            v == orgs.deep_view(),
            v == old(orgs).deep_view(),
            orgs_sorted(v),
            i <= len,
            forall|k: int| 0 <= k < i ==> lex_lt(#[trigger] v[k].address, addr@),
            e.address == addr@,
            e.info == info@,
        decreases len - i,
    {
        let c = compare_str(orgs[i].address.as_str(), addr);
        if c == StrCmp::Equal {
            let entry = OrgEntry { address: addr.to_owned(), info };
            proof {
                assert(e == entry@);
                lemma_org_at(v, i as int);
                lemma_update_upsert(v, i as int, e);
            }
            orgs[i] = entry;
            proof {
                assert(orgs.deep_view() =~= v.update(i as int, e));
            }
            return;
        }
        if c == StrCmp::Greater {
            let entry = OrgEntry { address: addr.to_owned(), info };
            let ghost ov = orgs@;
            proof {
                assert(e == entry@);
                lemma_insert_upsert(v, i as int, e);
            }
            orgs.insert(i, entry);
            proof {
                ov.insert_ensures(i as int, entry);
                v.insert_ensures(i as int, e);
                assert(orgs.deep_view() =~= v.insert(i as int, e));
            }
            return;
        }
        i = i + 1;
    }
    let entry = OrgEntry { address: addr.to_owned(), info };
    let ghost ov = orgs@;
    proof {
        assert(e == entry@);
        lemma_insert_upsert(v, len as int, e);
    }
    orgs.push(entry);
    proof {
        ov.insert_ensures(len as int, entry);
        v.insert_ensures(len as int, e);
        assert(orgs@ =~= ov.insert(len as int, entry));
        assert(orgs.deep_view() =~= v.insert(len as int, e));
    }
}

/// Makes an independent copy of the organization ledger, used to stage a
/// multi-account mutation that must commit atomically or not at all.
pub(crate) fn copy_orgs(src: &Vec<OrgEntry>) -> (r: Vec<OrgEntry>)
    ensures
        r.deep_view() == src.deep_view(),
{
    let ghost sv = src.deep_view();
    let len = src.len();
    let mut r: Vec<OrgEntry> = Vec::new();
    let mut i: usize = 0;
    while i < len
        invariant
            len == sv.len(),
            sv == src.deep_view(),
            i <= len,
            r.deep_view().len() == i as int,
            forall|k: int| 0 <= k < i ==> r.deep_view()[k] == sv[k],
        decreases len - i,
    {
        r.push(OrgEntry { address: src[i].address.clone(), info: src[i].info.clone() });
        i = i + 1;
    }
    proof {
        assert(r.deep_view() =~= sv);
    }
    r
}

/// Whether an attestation for the pair `(b, l)` is recorded.
pub open spec fn has_proof(s: Seq<ProofV>, b: Seq<char>, l: Seq<char>) -> bool {
    exists|i: int| 0 <= i < s.len() && s[i].borrower == b && s[i].lender == l
}

/// The index of the attestation for `(b, l)`, if one exists.
pub open spec fn proof_index(s: Seq<ProofV>, b: Seq<char>, l: Seq<char>) -> int {
    choose|i: int| 0 <= i < s.len() && s[i].borrower == b && s[i].lender == l
}

/// The attestation bytes recorded for `(b, l)`, empty if none.
pub open spec fn proof_lookup(s: Seq<ProofV>, b: Seq<char>, l: Seq<char>) -> Seq<u8> {
    if has_proof(s, b, l) {
        s[proof_index(s, b, l)].proof_bytes
    } else {
        Seq::empty()
    }
}

/// With unique pairs, the record at `i` is the unique one for its pair.
pub proof fn lemma_proof_at(s: Seq<ProofV>, i: int)
    requires
        proofs_unique(s),
        0 <= i < s.len(),
    ensures
        has_proof(s, s[i].borrower, s[i].lender),
        proof_index(s, s[i].borrower, s[i].lender) == i,
        proof_lookup(s, s[i].borrower, s[i].lender) == s[i].proof_bytes,
{
    assert(has_proof(s, s[i].borrower, s[i].lender));
}

/// Records `bytes` as the attestation for `(borrower, lender)`, inserting
/// or overwriting.
pub(crate) fn proof_upsert(
    proofs: &mut Vec<ProofRecord>,
    borrower: &str,
    lender: &str,
    bytes: Vec<u8>,
)
    requires
        proofs_unique(old(proofs).deep_view()),
    ensures
        proofs_unique(final(proofs).deep_view()),
        forall|b: Seq<char>, l: Seq<char>| #![auto]
            has_proof(final(proofs).deep_view(), b, l) == (has_proof(
                old(proofs).deep_view(),
                b,
                l,
            ) || (b == borrower@ && l == lender@)),
        forall|b: Seq<char>, l: Seq<char>| #![auto]
            proof_lookup(final(proofs).deep_view(), b, l) == if b == borrower@ && l == lender@ {
                bytes@
            } else {
                proof_lookup(old(proofs).deep_view(), b, l)
            },
{
    let ghost v = proofs.deep_view();
    let ghost bv = bytes@;
    let len = proofs.len();
    let mut i: usize = 0;
    while i < len
        invariant
            len == v.len(),
            v == proofs.deep_view(),
            v == old(proofs).deep_view(),
            proofs_unique(v),
            i <= len,
            bv == bytes@,
            forall|k: int|
                0 <= k < i ==> !((#[trigger] v[k]).borrower == borrower@ && v[k].lender
                    == lender@),
        decreases len - i,
    {
        let same_b = compare_str(proofs[i].borrower.as_str(), borrower) == StrCmp::Equal;
        let same_l = compare_str(proofs[i].lender.as_str(), lender) == StrCmp::Equal;
        if same_b && same_l {
            let rec = ProofRecord {
                borrower: borrower.to_owned(),
                lender: lender.to_owned(),
                proof_bytes: bytes,
            };
            let ghost rv = rec@;
            proofs[i] = rec;
            proof {
                assert(proofs.deep_view() =~= v.update(i as int, rv));
                let t = proofs.deep_view();
                assert(t[i as int].borrower == borrower@ && t[i as int].lender == lender@);
                assert(v[i as int].borrower == borrower@ && v[i as int].lender == lender@);
                assert forall|x: int, y: int| 0 <= x < y < t.len() implies !(
                (#[trigger] t[x]).borrower == (#[trigger] t[y]).borrower && t[x].lender
                    == t[y].lender) by {
                    assert(t[x].borrower == v[x].borrower && t[x].lender == v[x].lender);
                    assert(t[y].borrower == v[y].borrower && t[y].lender == v[y].lender);
                }
                assert(proofs_unique(t));
                assert forall|b: Seq<char>, l: Seq<char>| #![auto]
                    has_proof(t, b, l) == (has_proof(v, b, l) || (b == borrower@ && l
                        == lender@)) by {
                    if has_proof(t, b, l) {
                        let k = proof_index(t, b, l);
                        if k != i as int {
                            assert(v[k].borrower == b && v[k].lender == l);
                        }
                    }
                    if has_proof(v, b, l) && !(b == borrower@ && l == lender@) {
                        let k = proof_index(v, b, l);
                        assert(k != i as int);
                        assert(t[k].borrower == b && t[k].lender == l);
                    }
                }
                assert forall|b: Seq<char>, l: Seq<char>| #![auto]
                    proof_lookup(t, b, l) == if b == borrower@ && l == lender@ {
                        bv
                    } else {
                        proof_lookup(v, b, l)
                    } by {
                    if b == borrower@ && l == lender@ {
                        lemma_proof_at(t, i as int);
                    } else if has_proof(t, b, l) {
                        let k = proof_index(t, b, l);
                        assert(t[k].borrower == b && t[k].lender == l);
                        assert(k != i as int);
                        lemma_proof_at(t, k);
                        lemma_proof_at(v, k);
                    }
                }
            }
            return;
        }
        proof {
            if v[i as int].borrower == borrower@ && v[i as int].lender == lender@ {
                assert(same_b && same_l);
            }
        }
        i = i + 1;
    }
    let rec = ProofRecord {
        borrower: borrower.to_owned(),
        lender: lender.to_owned(),
        proof_bytes: bytes,
    };
    let ghost rv = rec@;
    proofs.push(rec);
    proof {
        assert(proofs.deep_view() =~= v.push(rv));
        let t = proofs.deep_view();
        assert forall|k: int| 0 <= k < v.len() implies !((#[trigger] v[k]).borrower == borrower@
            && v[k].lender == lender@) by {}
        assert(proofs_unique(t));
        assert forall|b: Seq<char>, l: Seq<char>| #![auto]
            has_proof(t, b, l) == (has_proof(v, b, l) || (b == borrower@ && l == lender@)) by {
            if has_proof(t, b, l) {
                let k = proof_index(t, b, l);
                if k < v.len() {
                    assert(v[k].borrower == b && v[k].lender == l);
                }
            }
            if has_proof(v, b, l) {
                let k = proof_index(v, b, l);
                assert(t[k].borrower == b && t[k].lender == l);
            }
            assert(t[v.len() as int].borrower == borrower@ && t[v.len() as int].lender
                == lender@);
        }
        assert forall|b: Seq<char>, l: Seq<char>| #![auto]
            proof_lookup(t, b, l) == if b == borrower@ && l == lender@ {
                bv
            } else {
                proof_lookup(v, b, l)
            } by {
            if b == borrower@ && l == lender@ {
                lemma_proof_at(t, v.len() as int);
            } else if has_proof(t, b, l) {
                let k = proof_index(t, b, l);
                assert(t[k].borrower == b && t[k].lender == l);
                assert(k != v.len() as int);
                lemma_proof_at(t, k);
                lemma_proof_at(v, k);
            }
        }
    }
}

/// How many recorded votes chose `option` on claim `claim_id`.
pub open spec fn count_vote(votes: Seq<VoteV>, claim_id: nat, option: VoteOption) -> nat {
    votes.filter(|v: VoteV| v.claim_id == claim_id && v.vote == option).len()
}

/// A vote list with no vote for claim `claim_id` choosing `option` counts
/// zero.
pub proof fn lemma_count_vote_absent(votes: Seq<VoteV>, claim_id: nat, option: VoteOption)
    requires
        forall|i: int|
            0 <= i < votes.len() ==> !((#[trigger] votes[i]).claim_id == claim_id && votes[i].vote
                == option),
    ensures
        count_vote(votes, claim_id, option) == 0,
    decreases votes.len(),
{
    reveal(Seq::filter);
    if votes.len() > 0 {
        assert forall|i: int| 0 <= i < votes.drop_last().len() implies !(
        (#[trigger] votes.drop_last()[i]).claim_id == claim_id && votes.drop_last()[i].vote
            == option) by {
            assert(votes.drop_last()[i] == votes[i]);
        }
        lemma_count_vote_absent(votes.drop_last(), claim_id, option);
    }
}

/// Appending one vote raises exactly the count it matches.
pub proof fn lemma_count_vote_push(votes: Seq<VoteV>, rec: VoteV, claim_id: nat, option: VoteOption)
    ensures
        count_vote(votes.push(rec), claim_id, option) == count_vote(votes, claim_id, option) + (
        if rec.claim_id == claim_id && rec.vote == option {
            1int
        } else {
            0int
        }),
{
    votes.lemma_filter_len_push(|v: VoteV| v.claim_id == claim_id && v.vote == option, rec);
}

/// Every vote refers to a claim that exists.
pub open spec fn votes_scoped(votes: Seq<VoteV>, n_claims: nat) -> bool {
    forall|i: int| 0 <= i < votes.len() ==> (#[trigger] votes[i]).claim_id < n_claims
}

/// Every claim's stored tallies equal the counts of its recorded votes.
pub open spec fn tallies_consistent(claims: Seq<ClaimV>, votes: Seq<VoteV>) -> bool {
    forall|j: int|
        0 <= j < claims.len() ==> (#[trigger] claims[j]).yes_votes == count_vote(
            votes,
            j as nat,
            VoteOption::Yes,
        ) && claims[j].no_votes == count_vote(votes, j as nat, VoteOption::No)
}

/// Whether a vote by `voter` on claim `claim_id` is recorded in `votes`.
pub open spec fn has_vote_in(votes: Seq<VoteV>, claim_id: nat, voter: Seq<char>) -> bool {
    exists|i: int|
        0 <= i < votes.len() && votes[i].claim_id == claim_id && votes[i].voter == voter
}

/// Scans the vote records for a vote by `voter` on claim `claim_id`.
pub(crate) fn vote_exists(votes: &Vec<Vote>, claim_id: u64, voter: &str) -> (b: bool)
    ensures
        b == has_vote_in(votes.deep_view(), claim_id as nat, voter@),
{
    let ghost v = votes.deep_view();
    let len = votes.len();
    let mut i: usize = 0;
    while i < len
        invariant
            len == v.len(),
            v == votes.deep_view(),
            i <= len,
            forall|k: int|
                0 <= k < i ==> !(v[k].claim_id == claim_id as nat && v[k].voter == voter@),
        decreases len - i,
    {
        if votes[i].claim_id == claim_id {
            let c = compare_str(votes[i].voter.as_str(), voter);
            if c == StrCmp::Equal {
                proof {
                    assert(v[i as int].claim_id == claim_id as nat && v[i as int].voter
                        == voter@);
                }
                return true;
            }
        }
        i = i + 1;
    }
    false
}

/// The whole ledger: the state every command reads and transforms.
pub struct State {
    /// The singleton configuration and the global credit total.
    pub config: Config,
    /// The next claim id; equals the number of claims ever created.
    pub claim_counter: u64,
    /// The next lend request id; equals the number of requests ever made.
    pub lend_request_counter: u64,
    /// All claims, indexed by their id.
    pub claims: Vec<Claim>,
    /// All recorded votes, in the order they were cast.
    pub votes: Vec<Vote>,
    /// The organization accounts, sorted by address.
    pub organizations: Vec<OrgEntry>,
    /// All lend requests, indexed by their id.
    pub lend_requests: Vec<LendRequest>,
    /// Recorded eligibility attestations, keyed by `(borrower, lender)`.
    pub proofs: Vec<ProofRecord>,
}

impl State {
    /// The claims as mathematical values.
    pub open spec fn claims_v(self) -> Seq<ClaimV> {
        self.claims.deep_view()
    }

    /// The votes as mathematical values.
    pub open spec fn votes_v(self) -> Seq<VoteV> {
        self.votes.deep_view()
    }

    /// The organization ledger as mathematical values.
    pub open spec fn orgs_v(self) -> Seq<OrgEntryV> {
        self.organizations.deep_view()
    }

    /// The lend requests as mathematical values.
    pub open spec fn lends_v(self) -> Seq<LendRequestV> {
        self.lend_requests.deep_view()
    }

    /// The proof records as mathematical values.
    pub open spec fn proofs_v(self) -> Seq<ProofV> {
        self.proofs.deep_view()
    }

    /// The account of `a`, default-zero if never written.
    pub open spec fn org_of(self, a: Seq<char>) -> OrgV {
        org_lookup(self.orgs_v(), a)
    }

    /// Whether `voter` has voted on claim `claim_id`.
    pub open spec fn has_vote(self, claim_id: nat, voter: Seq<char>) -> bool {
        has_vote_in(self.votes_v(), claim_id, voter)
    }

    /// The structural invariant every operation preserves: ids are the
    /// indices and the counters count them, votes are unique per
    /// `(claim, voter)` pair, the organization ledger is sorted, and proof
    /// records are unique per `(borrower, lender)` pair.
    pub open spec fn wf(self) -> bool {
        &&& self.claims_v().len() == self.claim_counter as nat
        &&& claim_ids_indexed(self.claims_v())
        &&& self.lends_v().len() == self.lend_request_counter as nat
        &&& lend_ids_indexed(self.lends_v())
        &&& votes_unique(self.votes_v())
        &&& votes_scoped(self.votes_v(), self.claims_v().len())
        &&& tallies_consistent(self.claims_v(), self.votes_v())
        &&& orgs_sorted(self.orgs_v())
        &&& proofs_unique(self.proofs_v())
    }
}

/// Every claim sits at the index equal to its id.
pub open spec fn claim_ids_indexed(claims: Seq<ClaimV>) -> bool {
    forall|i: int| 0 <= i < claims.len() ==> (#[trigger] claims[i]).id == i as nat
}

/// Every lend request sits at the index equal to its id.
pub open spec fn lend_ids_indexed(lends: Seq<LendRequestV>) -> bool {
    forall|i: int| 0 <= i < lends.len() ==> (#[trigger] lends[i]).id == i as nat
}

/// No two vote records share a `(claim, voter)` pair.
pub open spec fn votes_unique(votes: Seq<VoteV>) -> bool {
    forall|i: int, j: int|
        0 <= i < j < votes.len() ==> !((#[trigger] votes[i]).claim_id
            == (#[trigger] votes[j]).claim_id && votes[i].voter == votes[j].voter)
}

/// No two proof records share a `(borrower, lender)` pair.
pub open spec fn proofs_unique(proofs: Seq<ProofV>) -> bool {
    forall|i: int, j: int|
        0 <= i < j < proofs.len() ==> !((#[trigger] proofs[i]).borrower
            == (#[trigger] proofs[j]).borrower && proofs[i].lender == proofs[j].lender)
}

} // verus!
