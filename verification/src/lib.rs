//! A claim-verification and carbon-credit ledger with peer voting and
//! peer-to-peer credit lending.
//!
//! Organizations submit geolocated emissions-reduction claims; peers vote on
//! each claim until its deadline, after which anyone may finalize it. An
//! approved claim mints the demanded carbon credits to the claimant, and
//! voters who sided with the outcome gain reputation. Credits can then be
//! lent between organizations, subject to a deterministic eligibility score
//! over the borrower's ledger history, and later repaid.
//!
//! The whole ledger lives in a [`state::State`] value; every command and
//! query is a method on it with a full functional contract, stated over
//! the transition predicates in [`contract`]. The properties that hold
//! across operations are proved once and for all in [`laws`]. The hosting
//! runtime (storage, message transport) is expected to serialize calls and
//! commit each successful transition atomically.

pub mod contract;
pub mod encoding;
pub mod error;
pub mod laws;
pub mod msg;
pub mod query;
pub mod state;
pub mod text;
