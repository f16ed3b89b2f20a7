//! A crowdfunding-style escrow core: a creator opens a named fundraising
//! goal, contributors deposit value into a goal-specific escrow holding, and
//! the creator may withdraw only once the collected value reaches the target.
//!
//! The library models the rules that decide when value may move, who may
//! move it, and how the escrow's authority is derived deterministically from
//! the creator's identity and the goal's identifier. The surrounding ledger
//! runtime — account allocation, signature verification, and the raw value
//! transfer — is an external collaborator that this core is driven by.

pub mod errors;
pub mod goal;
pub mod registry;
