//! Ledger state for a staking and matching protocol, kept in fixed-size byte
//! regions: versioned headers, ring and stack containers stored in place,
//! a router over sibling containers, the match-pair registry, the per-user
//! back-reference index and the admin root.
use vstd::prelude::*;

pub mod error;
pub mod pubkey;
pub mod region;
pub mod version;
pub mod stake;
pub mod queue;
pub mod instruction;
pub mod match_pair;
pub mod user;
pub mod admin;
pub mod swap;

verus! {

} // verus!
