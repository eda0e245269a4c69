//! The index of expiring disputes agrees with the disputes: every open dispute
//! has its entry at the block at which it expires, so that the sweep of a block
//! finalises every dispute that expires at it. And no dispute stays open once
//! its panel has decided it: an open dispute whose every juror has voted is
//! split. This holds of a new engine, and every operation keeps it.
use crate::disputes::dispute::{DisputeKey, DisputeResult};
use crate::disputes::model::{deadline, entry_id, Config, State};
use crate::expiry::{lemma_push_contains, lemma_remove_value_contains};
use crate::types::{AccountId, BlockNumber};
use vstd::prelude::*;

verus! {

/// Whether the dispute `key` has its entry at the block at which it expires.
pub open spec fn in_place(s: State, key: DisputeKey) -> bool {
    s.finalise_on[s.disputes[key].expiration].contains(entry_id(key))
}

/// Every open dispute has its entry at the block at which it expires.
pub open spec fn indexed(s: State) -> bool {
    forall|key: DisputeKey| #[trigger] s.disputes.contains_key(key) ==> in_place(s, key)
}

/// Whether the dispute `key` has its entry among `pending`, if it expires at
/// `block`, or else at the block at which it expires.
pub open spec fn in_place_but(
    s: State,
    block: BlockNumber,
    pending: Seq<u128>,
    key: DisputeKey,
) -> bool {
    if s.disputes[key].expiration == block {
        pending.contains(entry_id(key))
    } else {
        in_place(s, key)
    }
}

/// Every open dispute that expires at `block` has its entry among `pending`,
/// and every other one has its entry at the block at which it expires.
pub open spec fn indexed_but(s: State, block: BlockNumber, pending: Seq<u128>) -> bool {
    forall|key: DisputeKey| #[trigger]
        s.disputes.contains_key(key) ==> in_place_but(s, block, pending, key)
}

/// Every open dispute with a panel is undecided by its panel.
pub open spec fn unsettled(s: State) -> bool {
    forall|key: DisputeKey| #[trigger]
        s.disputes.contains_key(key) ==> s.disputes[key].jury.len() == 0
            || s.disputes[key].verdict().is_none()
}

impl State {
    /// The index agrees with the disputes, and no open dispute has been
    /// decided by its panel.
    pub open spec fn consistent(self) -> bool {
        &&& indexed(self)
        &&& unsettled(self)
    }
}

/// Whether the dispute `key` of `after` is a dispute of `before` with the same
/// panel and votes.
spec fn before_or_same(before: State, after: State, key: DisputeKey) -> bool {
    &&& before.disputes.contains_key(key)
    &&& after.disputes[key].jury == before.disputes[key].jury
    &&& after.disputes[key].votes == before.disputes[key].votes
}

/// A state with the disputes and the index of one whose index agrees has an
/// index that agrees.
proof fn lemma_indexed_frame(before: State, after: State)
    requires
        indexed(before),
        after.disputes == before.disputes,
        after.finalise_on == before.finalise_on,
    ensures
        indexed(after),
{
    assert forall|key: DisputeKey| #[trigger] after.disputes.contains_key(key) implies in_place(
        after,
        key,
    ) by {
        assert(in_place(before, key));
    }
}

/// Disputes stay undecided by their panels when disputes are taken away, or
/// changed in their deadline only.
proof fn lemma_unsettled_shrinks(before: State, after: State)
    requires
        unsettled(before),
        forall|key: DisputeKey| #[trigger]
            after.disputes.contains_key(key) ==> before.disputes.contains_key(key)
                && after.disputes[key].jury == before.disputes[key].jury
                && after.disputes[key].votes == before.disputes[key].votes,
    ensures
        unsettled(after),
{
    assert forall|key: DisputeKey| #[trigger]
        after.disputes.contains_key(key) implies after.disputes[key].jury.len() == 0
        || after.disputes[key].verdict().is_none() by {
        assert(before.disputes.contains_key(key));
    }
}

/// A state with the disputes and the index of a consistent one is consistent.
pub proof fn lemma_consistent_frame(before: State, after: State)
    requires
        before.consistent(),
        after.disputes == before.disputes,
        after.finalise_on == before.finalise_on,
    ensures
        after.consistent(),
{
    lemma_indexed_frame(before, after);
    lemma_unsettled_shrinks(before, after);
}

/// Raising a dispute keeps the index in agreement with the disputes.
proof fn lemma_raised_indexed(
    s: State,
    cfg: Config,
    key: DisputeKey,
    raised_by: AccountId,
    jury: Seq<AccountId>,
    specifiers: Seq<u32>,
)
    requires
        indexed(s),
    ensures
        indexed(s.raised(cfg, key, raised_by, jury, specifiers)),
{
    let after = s.raised(cfg, key, raised_by, jury, specifiers);
    let block = deadline(s.now, cfg.voting_time_limit);
    assert forall|k: DisputeKey| #[trigger] after.disputes.contains_key(k) implies in_place(
        after,
        k,
    ) by {
        lemma_push_contains(s.finalise_on[block], entry_id(key), entry_id(k));
        if k != key {
            assert(in_place(s, k));
        }
    }
}

/// Raising a dispute keeps the engine consistent.
pub proof fn law_raised_consistent(
    s: State,
    cfg: Config,
    key: DisputeKey,
    raised_by: AccountId,
    jury: Seq<AccountId>,
    specifiers: Seq<u32>,
)
    requires
        s.consistent(),
    ensures
        s.raised(cfg, key, raised_by, jury, specifiers).consistent(),
{
    lemma_raised_indexed(s, cfg, key, raised_by, jury, specifiers);
    let after = s.raised(cfg, key, raised_by, jury, specifiers);
    assert forall|k: DisputeKey| #[trigger]
        after.disputes.contains_key(k) implies after.disputes[k].jury.len() == 0
        || after.disputes[k].verdict().is_none() by {
        if k != key {
            assert(s.disputes.contains_key(k));
        }
    }
}

/// Finalising a dispute keeps the index in agreement.
proof fn lemma_finalised_indexed(s: State, key: DisputeKey)
    requires
        indexed(s),
    ensures
        indexed(s.finalised(key)),
{
    let after = s.finalised(key);
    let block = s.disputes[key].expiration;
    assert forall|k: DisputeKey| #[trigger] after.disputes.contains_key(k) implies in_place(
        after,
        k,
    ) by {
        assert(in_place(s, k));
        lemma_remove_value_contains(s.finalise_on[block], entry_id(key), entry_id(k));
    }
}

/// Finalising a dispute keeps the engine consistent.
pub proof fn law_finalised_consistent(s: State, key: DisputeKey)
    requires
        s.consistent(),
    ensures
        s.finalised(key).consistent(),
{
    lemma_finalised_indexed(s, key);
    lemma_unsettled_shrinks(s, s.finalised(key));
}

/// A vote keeps the index in agreement.
proof fn lemma_voted_indexed(s: State, who: AccountId, key: DisputeKey, is_yay: bool)
    requires
        indexed(s),
        s.disputes.contains_key(key),
    ensures
        indexed(s.voted(who, key, is_yay)),
{
    let dispute = s.disputes[key].with_vote(who, is_yay);
    let recorded = State { disputes: s.disputes.insert(key, dispute), ..s };
    assert forall|k: DisputeKey| #[trigger] recorded.disputes.contains_key(k) implies in_place(
        recorded,
        k,
    ) by {
        assert(in_place(s, k));
    }
    let settled = if dispute.verdict().is_some() {
        lemma_finalised_indexed(recorded, key);
        recorded.finalised(key)
    } else {
        recorded
    };
    lemma_indexed_frame(settled, s.voted(who, key, is_yay));
}

/// A vote keeps the engine consistent: the dispute voted on is finalised if
/// the vote completes a unanimous panel, and undecided if not.
pub proof fn law_voted_consistent(s: State, who: AccountId, key: DisputeKey, is_yay: bool)
    requires
        s.consistent(),
        s.disputes.contains_key(key),
    ensures
        s.voted(who, key, is_yay).consistent(),
{
    lemma_voted_indexed(s, who, key, is_yay);
    let after = s.voted(who, key, is_yay);
    assert forall|k: DisputeKey| #[trigger]
        after.disputes.contains_key(k) implies after.disputes[k].jury.len() == 0
        || after.disputes[k].verdict().is_none() by {
        if k != key {
            assert(s.disputes.contains_key(k));
        }
    }
}

/// An extension keeps the index in agreement.
proof fn lemma_extended_indexed(s: State, cfg: Config, key: DisputeKey)
    requires
        indexed(s),
        s.disputes.contains_key(key),
    ensures
        indexed(s.extended(cfg, key)),
{
    let after = s.extended(cfg, key);
    let old_expiry = s.disputes[key].expiration;
    let new_expiry = deadline(old_expiry, cfg.voting_time_limit);
    let cleaned = s.finalise_on.insert(
        old_expiry,
        s.finalise_on[old_expiry].remove_value(entry_id(key)),
    );
    assert forall|k: DisputeKey| #[trigger] after.disputes.contains_key(k) implies in_place(
        after,
        k,
    ) by {
        lemma_push_contains(cleaned[new_expiry], entry_id(key), entry_id(k));
        if k != key {
            assert(in_place(s, k));
            lemma_remove_value_contains(s.finalise_on[old_expiry], entry_id(key), entry_id(k));
        }
    }
}

/// An extension keeps the engine consistent.
pub proof fn law_extended_consistent(s: State, cfg: Config, key: DisputeKey)
    requires
        s.consistent(),
        s.disputes.contains_key(key),
    ensures
        s.extended(cfg, key).consistent(),
{
    lemma_extended_indexed(s, cfg, key);
    let after = s.extended(cfg, key);
    assert forall|k: DisputeKey| #[trigger]
        after.disputes.contains_key(k) implies before_or_same(s, after, k) by {
        if k != key {
            assert(s.disputes.contains_key(k));
        }
    }
    lemma_unsettled_shrinks(s, after);
}

/// A decision of the authority keeps the index in agreement.
proof fn lemma_forced_indexed(s: State, key: DisputeKey, result: DisputeResult)
    requires
        indexed(s),
    ensures
        indexed(s.forced(key, result)),
{
    lemma_finalised_indexed(s, key);
    lemma_indexed_frame(s.finalised(key), s.forced(key, result));
}

/// A decision of the authority keeps the engine consistent.
pub proof fn law_forced_consistent(s: State, key: DisputeKey, result: DisputeResult)
    requires
        s.consistent(),
    ensures
        s.forced(key, result).consistent(),
{
    lemma_forced_indexed(s, key, result);
    lemma_unsettled_shrinks(s, s.forced(key, result));
}

/// An entry among `first` and `pending` that is not `first` is among
/// `pending`.
proof fn lemma_rest_contains(first: u128, pending: Seq<u128>, id: u128)
    requires
        (seq![first] + pending).contains(id),
        id != first,
    ensures
        pending.contains(id),
{
    let all = seq![first] + pending;
    let i = choose|i: int| 0 <= i < all.len() && all[i] == id;
    assert(pending[i - 1] == id);
}

/// Sweeping entries works off what is pending: what expires at `block` and is
/// still open has its entry among those not swept yet.
proof fn lemma_swept_pending(s: State, block: BlockNumber, done: Seq<u128>, pending: Seq<u128>)
    requires
        indexed_but(s, block, done + pending),
    ensures
        indexed_but(s.swept(done), block, pending),
    decreases done.len(),
{
    if done.len() == 0 {
        assert(done + pending =~= pending);
    } else {
        let front = done.drop_last();
        let id = done.last();
        let rest = seq![id] + pending;
        assert(front + rest =~= done + pending);
        lemma_swept_pending(s, block, front, rest);
        let before = s.swept(front);
        let after = s.swept(done);
        let swept = id <= u32::MAX && before.disputes.contains_key(id as u32);
        let at = before.disputes[id as u32].expiration;
        assert forall|k: DisputeKey| #[trigger]
            after.disputes.contains_key(k) implies in_place_but(after, block, pending, k) by {
            assert(in_place_but(before, block, rest, k));
            if before.disputes[k].expiration == block {
                lemma_rest_contains(id, pending, entry_id(k));
            } else if swept {
                lemma_remove_value_contains(before.finalise_on[at], id, entry_id(k));
            }
        }
    }
}

/// A sweep leaves every dispute that it leaves open undecided by its panel.
proof fn lemma_swept_unsettled(s: State, ids: Seq<u128>)
    requires
        unsettled(s),
    ensures
        unsettled(s.swept(ids)),
    decreases ids.len(),
{
    if ids.len() > 0 {
        lemma_swept_unsettled(s, ids.drop_last());
        lemma_unsettled_shrinks(s.swept(ids.drop_last()), s.swept(ids));
    }
}

/// The sweep of a block keeps the index in agreement, and leaves no dispute
/// open that expires at the block.
proof fn lemma_initialized_indexed(s: State, block: BlockNumber)
    requires
        indexed(s),
    ensures
        indexed(s.initialized(block)),
        forall|key: DisputeKey| #[trigger]
            s.initialized(block).disputes.contains_key(key) ==> s.initialized(
                block,
            ).disputes[key].expiration != block,
{
    let ids = s.finalise_on[block];
    let drained = s.drained(block);
    let none = Seq::<u128>::empty();
    assert(ids + none =~= ids);
    assert forall|k: DisputeKey| #[trigger]
        drained.disputes.contains_key(k) implies in_place_but(drained, block, ids + none, k) by {
        assert(in_place(s, k));
    }
    lemma_swept_pending(drained, block, ids, none);
    let after = s.initialized(block);
    assert forall|k: DisputeKey| #[trigger] after.disputes.contains_key(k) implies in_place(
        after,
        k,
    ) && after.disputes[k].expiration != block by {
        assert(in_place_but(after, block, none, k));
    }
}

/// The sweep of a block keeps the engine consistent, and leaves no dispute
/// open that expires at the block.
pub proof fn law_initialized_consistent(s: State, block: BlockNumber)
    requires
        s.consistent(),
    ensures
        s.initialized(block).consistent(),
        forall|key: DisputeKey| #[trigger]
            s.initialized(block).disputes.contains_key(key) ==> s.initialized(
                block,
            ).disputes[key].expiration != block,
{
    lemma_initialized_indexed(s, block);
    lemma_unsettled_shrinks(s, s.drained(block));
    lemma_swept_unsettled(s.drained(block), s.finalise_on[block]);
}

} // verus!
