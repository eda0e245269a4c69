//! Every operation of the dispute engine leads to a state that may come after
//! the state before it: within its limits, and consistent if the state before
//! was.
use crate::disputes::consistency::{
    law_extended_consistent, law_finalised_consistent, law_forced_consistent,
    law_initialized_consistent, law_raised_consistent, law_voted_consistent, lemma_consistent_frame,
};
use crate::disputes::dispute::{DisputeKey, DisputeResult};
use crate::disputes::invariants::{
    lemma_drained_inv, lemma_extended_inv, lemma_finalised_inv, lemma_forced_inv, lemma_raised_inv,
    lemma_voted_inv,
};
use crate::disputes::model::{Config, State};
use crate::types::{AccountId, BlockNumber, Origin};
use vstd::prelude::*;

verus! {

impl State {
    /// Whether this state may come after `before`: it is within its limits,
    /// and it is consistent if `before` was.
    pub open spec fn succeeds(self, before: State, cfg: Config) -> bool {
        &&& self.inv(cfg)
        &&& before.consistent() ==> self.consistent()
    }
}

/// A state may come after itself.
pub proof fn law_unchanged(s: State, cfg: Config)
    requires
        s.inv(cfg),
    ensures
        s.succeeds(s, cfg),
{
}

/// The passing of time changes nothing but the block.
pub proof fn law_moved(s: State, cfg: Config, now: BlockNumber)
    requires
        s.inv(cfg),
    ensures
        (State { now, ..s }).succeeds(s, cfg),
{
    if s.consistent() {
        lemma_consistent_frame(s, State { now, ..s });
    }
}

/// The state after a dispute has been raised may come after the state before.
pub proof fn law_raised(
    s: State,
    cfg: Config,
    key: DisputeKey,
    raised_by: AccountId,
    jury: Seq<AccountId>,
    specifiers: Seq<u32>,
)
    requires
        s.inv(cfg),
        s.raise_outcome(cfg, key, jury, specifiers).is_ok(),
    ensures
        s.raised(cfg, key, raised_by, jury, specifiers).succeeds(s, cfg),
{
    lemma_raised_inv(s, cfg, key, raised_by, jury, specifiers);
    if s.consistent() {
        law_raised_consistent(s, cfg, key, raised_by, jury, specifiers);
    }
}

/// The state after a dispute has been finalised may come after the state
/// before.
pub proof fn law_finalised(s: State, cfg: Config, key: DisputeKey)
    requires
        s.inv(cfg),
    ensures
        s.finalised(key).succeeds(s, cfg),
{
    lemma_finalised_inv(s, cfg, key);
    if s.consistent() {
        law_finalised_consistent(s, key);
    }
}

/// The state after a juror has voted may come after the state before.
pub proof fn law_voted(s: State, cfg: Config, who: AccountId, key: DisputeKey, is_yay: bool)
    requires
        s.inv(cfg),
        s.disputes.contains_key(key),
        s.disputes[key].is_juror(who),
    ensures
        s.voted(who, key, is_yay).succeeds(s, cfg),
{
    lemma_voted_inv(s, cfg, who, key, is_yay);
    if s.consistent() {
        law_voted_consistent(s, who, key, is_yay);
    }
}

/// The state after a dispute has been extended may come after the state
/// before.
pub proof fn law_extended(s: State, cfg: Config, origin: Origin, key: DisputeKey)
    requires
        s.inv(cfg),
        s.extend_outcome(cfg, origin, key).is_ok(),
    ensures
        s.extended(cfg, key).succeeds(s, cfg),
{
    lemma_extended_inv(s, cfg, origin, key);
    if s.consistent() {
        law_extended_consistent(s, cfg, key);
    }
}

/// The state after the authority has decided a dispute may come after the
/// state before.
pub proof fn law_forced(s: State, cfg: Config, key: DisputeKey, result: DisputeResult)
    requires
        s.inv(cfg),
    ensures
        s.forced(key, result).succeeds(s, cfg),
{
    lemma_forced_inv(s, cfg, key, result);
    if s.consistent() {
        law_forced_consistent(s, key, result);
    }
}

/// A sweep keeps the state within its limits.
proof fn lemma_swept_inv(s: State, cfg: Config, ids: Seq<u128>)
    requires
        s.inv(cfg),
    ensures
        s.swept(ids).inv(cfg),
    decreases ids.len(),
{
    if ids.len() > 0 {
        lemma_swept_inv(s, cfg, ids.drop_last());
        let before = s.swept(ids.drop_last());
        let id = ids.last();
        if id <= u32::MAX && before.disputes.contains_key(id as u32) {
            lemma_finalised_inv(before, cfg, id as u32);
        }
    }
}

/// The state after a block has begun may come after the state before.
pub proof fn law_initialized(s: State, cfg: Config, block: BlockNumber)
    requires
        s.inv(cfg),
    ensures
        s.initialized(block).succeeds(s, cfg),
{
    lemma_drained_inv(s, cfg, block);
    lemma_swept_inv(s.drained(block), cfg, s.finalise_on[block]);
    if s.consistent() {
        law_initialized_consistent(s, block);
    }
}

} // verus!
