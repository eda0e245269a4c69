//! Jury disputes: raised from outside, voted on by the jury, and finalised by a
//! unanimous panel, by the authority, or by the block at which they expire.
pub mod consistency;
pub mod dispute;
pub mod engine;
pub mod invariants;
pub mod laws;
pub mod model;
pub mod succession;
pub mod traits;

pub use dispute::{Dispute, DisputeKey, DisputeResult, DisputeView};
pub use engine::Pallet;
pub use model::{Completion, Config, Error, Event, State};
pub use traits::{CompletionLog, DisputeHooks, DisputeRaiser};
