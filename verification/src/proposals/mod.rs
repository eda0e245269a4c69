//! Projects: milestone voting, withdrawal of unlocked funds, votes of no
//! confidence, and the handling of completed disputes.
pub mod consistency;
pub mod engine;
pub mod invariants;
pub mod laws;
pub mod model;
pub mod orderly;
pub mod project;
pub mod round;
pub mod succession;
pub mod tallies;
pub mod traits;
pub mod weights;

pub use project::{
    Contribution, Milestone, Project, ProjectView, ProposedMilestone, Release, RoundType, Vote,
};
pub use engine::Pallet;
pub use model::{Config, Error, Event, State, Withdrawal};
pub use round::{Round, RoundView};
pub use traits::IntoProposal;
