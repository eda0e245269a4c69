//! Governance primitives of a milestone-funded work marketplace: projects whose
//! funds unlock milestone by milestone on the weighted vote of their
//! contributors, and jury disputes that can mark milestones as refundable.
//!
//! Two engines hold the state, each an explicit store that its operations
//! take by reference:
//!
//! - [`proposals::Pallet`], the project engine: projects, their milestones and
//!   contributions, voting rounds on milestones and on the confidence in the
//!   initiator, and the accounting of withdrawals;
//! - [`disputes::Pallet`], the dispute engine: disputes, their juries and
//!   votes, and their deadlines.
//!
//! The dispute engine tells the project engine of every dispute that ends,
//! through [`disputes::DisputeHooks`]; the project engine raises disputes
//! through [`disputes::DisputeRaiser`] and moves funds through
//! [`ledger::Ledger`]. Both engines keep their deadlines in an
//! [`expiry::ExpiryIndex`].
//!
//! The contract of every operation says what the operation returns and what it
//! makes of the state, over the model of the state in `proposals::model` and
//! `disputes::model`. What holds of the engines whatever they are asked to do
//! is stated and proved in the modules `laws`, `consistency` and `succession`
//! of each, and in `proposals::orderly`.
pub mod accounts;
pub mod bucket;
pub mod disputes;
pub mod expiry;
pub mod fellowship;
pub mod ledger;
pub mod per_account;
pub mod percent;
pub mod proposals;
pub mod types;
