//! Every operation of the dispute engine keeps the state within its limits.
use crate::disputes::dispute::{DisputeKey, DisputeResult, DisputeView};
use crate::disputes::model::{deadline, entry_id, within_limits, Config, State};
use crate::expiry::{lemma_bounded_drain, lemma_bounded_push, lemma_bounded_remove};
use crate::per_account::{lemma_position_of, position_of, recorded};
use crate::types::{AccountId, BlockNumber, Origin};
use vstd::prelude::*;

verus! {

/// A vote of a juror keeps the votes those of jurors, one each.
pub proof fn lemma_with_vote_wf(dispute: DisputeView, who: AccountId, is_yay: bool)
    requires
        dispute.wf(),
        dispute.is_juror(who),
    ensures
        dispute.with_vote(who, is_yay).wf(),
        dispute.with_vote(who, is_yay).votes.len() >= dispute.votes.len(),
{
    lemma_position_of(dispute.votes, who);
    let after = recorded(dispute.votes, who, is_yay);
    match position_of(dispute.votes, who) {
        Some(p) => {
            assert forall|i: int, j: int| 0 <= i < j < after.len() implies (#[trigger] after[i]).0
                != (#[trigger] after[j]).0 by {
                assert(after[i].0 == dispute.votes[i].0);
                assert(after[j].0 == dispute.votes[j].0);
            }
            assert forall|i: int| 0 <= i < after.len() implies dispute.jury.contains(
                (#[trigger] after[i]).0,
            ) by {
                assert(after[i].0 == dispute.votes[i].0);
            }
        },
        None => {
            assert forall|i: int, j: int| 0 <= i < j < after.len() implies (#[trigger] after[i]).0
                != (#[trigger] after[j]).0 by {
                assert(after[i] == dispute.votes[i]);
                if j < dispute.votes.len() {
                    assert(after[j] == dispute.votes[j]);
                }
            }
            assert forall|i: int| 0 <= i < after.len() implies dispute.jury.contains(
                (#[trigger] after[i]).0,
            ) by {
                if i < dispute.votes.len() {
                    assert(after[i] == dispute.votes[i]);
                }
            }
        },
    }
}

/// Putting a dispute within the limits among others that are keeps them all
/// within the limits.
pub proof fn lemma_within_limits_insert(
    disputes: Map<DisputeKey, DisputeView>,
    cfg: Config,
    key: DisputeKey,
    dispute: DisputeView,
)
    requires
        within_limits(disputes, cfg),
        dispute.wf(),
        dispute.jury.len() <= cfg.max_jury_size,
        dispute.specifiers.len() <= cfg.max_specifics,
    ensures
        within_limits(disputes.insert(key, dispute), cfg),
{
    let after = disputes.insert(key, dispute);
    assert forall|k: DisputeKey| #[trigger] after.contains_key(k) implies {
        &&& after[k].wf()
        &&& after[k].jury.len() <= cfg.max_jury_size
        &&& after[k].specifiers.len() <= cfg.max_specifics
    } by {
        if k != key {
            assert(disputes.contains_key(k));
        }
    }
}

/// Taking a dispute away leaves the others within the limits.
pub proof fn lemma_within_limits_remove(
    disputes: Map<DisputeKey, DisputeView>,
    cfg: Config,
    key: DisputeKey,
)
    requires
        within_limits(disputes, cfg),
    ensures
        within_limits(disputes.remove(key), cfg),
{
    let after = disputes.remove(key);
    assert forall|k: DisputeKey| #[trigger] after.contains_key(k) implies {
        &&& after[k].wf()
        &&& after[k].jury.len() <= cfg.max_jury_size
        &&& after[k].specifiers.len() <= cfg.max_specifics
    } by {
        assert(disputes.contains_key(k));
    }
}

/// Raising a dispute keeps the invariant.
pub proof fn lemma_raised_inv(
    s: State,
    cfg: Config,
    key: DisputeKey,
    raised_by: AccountId,
    jury: Seq<AccountId>,
    specifiers: Seq<u32>,
)
    requires
        s.inv(cfg),
        s.raise_outcome(cfg, key, jury, specifiers).is_ok(),
    ensures
        s.raised(cfg, key, raised_by, jury, specifiers).inv(cfg),
{
    let expiration = deadline(s.now, cfg.voting_time_limit);
    lemma_bounded_push(s.finalise_on, cfg.bucket_capacity(), expiration, entry_id(key));
    lemma_within_limits_insert(
        s.disputes,
        cfg,
        key,
        s.raised(cfg, key, raised_by, jury, specifiers).disputes[key],
    );
}

/// Finalising a dispute keeps the invariant.
pub proof fn lemma_finalised_inv(s: State, cfg: Config, key: DisputeKey)
    requires
        s.inv(cfg),
    ensures
        s.finalised(key).inv(cfg),
{
    lemma_bounded_remove(
        s.finalise_on,
        cfg.bucket_capacity(),
        s.disputes[key].expiration,
        entry_id(key),
    );
    lemma_within_limits_remove(s.disputes, cfg, key);
}

/// A vote keeps the invariant.
pub proof fn lemma_voted_inv(s: State, cfg: Config, who: AccountId, key: DisputeKey, is_yay: bool)
    requires
        s.inv(cfg),
        s.disputes.contains_key(key),
        s.disputes[key].is_juror(who),
    ensures
        s.voted(who, key, is_yay).inv(cfg),
{
    let dispute = s.disputes[key].with_vote(who, is_yay);
    lemma_with_vote_wf(s.disputes[key], who, is_yay);
    lemma_within_limits_insert(s.disputes, cfg, key, dispute);
    let recorded = State { disputes: s.disputes.insert(key, dispute), ..s };
    if dispute.verdict().is_some() {
        lemma_finalised_inv(recorded, cfg, key);
    }
}

/// An extension keeps the invariant.
pub proof fn lemma_extended_inv(s: State, cfg: Config, origin: Origin, key: DisputeKey)
    requires
        s.inv(cfg),
        s.extend_outcome(cfg, origin, key).is_ok(),
    ensures
        s.extended(cfg, key).inv(cfg),
{
    let dispute = s.disputes[key];
    let old_expiry = dispute.expiration;
    let new_expiry = deadline(old_expiry, cfg.voting_time_limit);
    lemma_bounded_remove(s.finalise_on, cfg.bucket_capacity(), old_expiry, entry_id(key));
    let cleaned = s.finalise_on.insert(
        old_expiry,
        s.finalise_on[old_expiry].remove_value(entry_id(key)),
    );
    lemma_bounded_push(cleaned, cfg.bucket_capacity(), new_expiry, entry_id(key));
    lemma_within_limits_insert(
        s.disputes,
        cfg,
        key,
        DisputeView { expiration: new_expiry, is_extended: true, ..dispute },
    );
}

/// A decision of the authority keeps the invariant.
pub proof fn lemma_forced_inv(s: State, cfg: Config, key: DisputeKey, result: DisputeResult)
    requires
        s.inv(cfg),
    ensures
        s.forced(key, result).inv(cfg),
{
    lemma_finalised_inv(s, cfg, key);
}

/// Emptying a bucket keeps the invariant.
pub proof fn lemma_drained_inv(s: State, cfg: Config, block: BlockNumber)
    requires
        s.inv(cfg),
    ensures
        s.drained(block).inv(cfg),
{
    lemma_bounded_drain(s.finalise_on, cfg.bucket_capacity(), block);
}

} // verus!
