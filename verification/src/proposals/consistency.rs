//! The rounds agree with the projects and with the index of expiring rounds:
//! every open round stands under its own entry, has that entry at the block at
//! which it closes, and, if it votes on a milestone of a project that still
//! exists, that milestone exists and is not approved yet.
use crate::disputes::DisputeResult;
use crate::expiry::{lemma_push_contains, lemma_remove_value_contains};
use crate::proposals::model::{counted, deadline, Config, State};
use crate::proposals::project::{
    approved, has_approved, has_milestone, refundable, Contribution, Milestone, ProposedMilestone,
    RoundType, Vote,
};
use crate::proposals::round::{round_id, RoundView};
use crate::types::{
    AccountId, AgreementHash, Balance, BlockNumber, CurrencyId, FundingType, MilestoneKey,
    ProjectKey,
};
use vstd::prelude::*;

verus! {

/// Whether the round under `id` is in order: it stands under its own entry, a
/// vote of no confidence has the milestone 0, its project is one of those
/// created so far, and a vote on a milestone of a project that exists is on a
/// milestone that the project has and that is not approved.
pub open spec fn round_in_order(s: State, id: u128) -> bool {
    let round = s.rounds[id];
    &&& id == round_id(round.round_type, round.project_key, round.milestone_key)
    &&& round.round_type == RoundType::VoteOfNoConfidence ==> round.milestone_key == 0
    &&& round.project_key <= s.project_count
    &&& round.round_type == RoundType::VotingRound && s.projects.contains_key(round.project_key)
        ==> has_milestone(s.projects[round.project_key].milestones, round.milestone_key)
        && !has_approved(s.projects[round.project_key].milestones, round.milestone_key)
}

/// Every open round is in order.
pub open spec fn rounds_in_order(s: State) -> bool {
    forall|id: u128| #[trigger] s.rounds.contains_key(id) ==> round_in_order(s, id)
}

/// Every open round has its entry at the block at which it closes.
pub open spec fn indexed(s: State) -> bool {
    forall|id: u128| #[trigger]
        s.rounds.contains_key(id) ==> s.rounds_expiring[s.rounds[id].expires_at].contains(id)
}

/// Whether the round under `id` has its entry among `pending`, if it closes at
/// `block`, or else at the block at which it closes.
pub open spec fn round_indexed_but(
    s: State,
    block: BlockNumber,
    pending: Seq<u128>,
    id: u128,
) -> bool {
    if s.rounds[id].expires_at == block {
        pending.contains(id)
    } else {
        s.rounds_expiring[s.rounds[id].expires_at].contains(id)
    }
}

/// Every open round that closes at `block` has its entry among `pending`, and
/// every other one has its entry at the block at which it closes.
pub open spec fn indexed_but(s: State, block: BlockNumber, pending: Seq<u128>) -> bool {
    forall|id: u128| #[trigger]
        s.rounds.contains_key(id) ==> round_indexed_but(s, block, pending, id)
}

impl State {
    /// The rounds agree with the projects and with the index.
    pub open spec fn consistent(self) -> bool {
        &&& rounds_in_order(self)
        &&& indexed(self)
    }
}

/// Approving one milestone leaves every milestone in place.
pub proof fn lemma_approved_has_milestone(
    milestones: Seq<Milestone>,
    approved_key: MilestoneKey,
    key: MilestoneKey,
)
    ensures
        has_milestone(approved(milestones, approved_key), key) == has_milestone(milestones, key),
{
    let after = approved(milestones, approved_key);
    if has_milestone(milestones, key) {
        let i = choose|i: int|
            0 <= i < milestones.len() && (#[trigger] milestones[i]).milestone_key == key;
        assert(after[i].milestone_key == key);
    }
    if has_milestone(after, key) {
        let i = choose|i: int| 0 <= i < after.len() && (#[trigger] after[i]).milestone_key == key;
        assert(milestones[i].milestone_key == key);
    }
}

/// Approving one milestone approves that one, if it exists, and no other.
pub proof fn lemma_approved_has_approved(
    milestones: Seq<Milestone>,
    approved_key: MilestoneKey,
    key: MilestoneKey,
)
    ensures
        has_approved(approved(milestones, approved_key), key) == (has_approved(milestones, key)
            || (key == approved_key && has_milestone(milestones, key))),
{
    let after = approved(milestones, approved_key);
    if has_approved(milestones, key) {
        let i = choose|i: int|
            0 <= i < milestones.len() && (#[trigger] milestones[i]).milestone_key == key
                && milestones[i].is_approved;
        assert(after[i].milestone_key == key && after[i].is_approved);
    }
    if key == approved_key && has_milestone(milestones, key) {
        let i = choose|i: int|
            0 <= i < milestones.len() && (#[trigger] milestones[i]).milestone_key == key;
        assert(after[i].milestone_key == key && after[i].is_approved);
    }
    if has_approved(after, key) {
        let i = choose|i: int|
            0 <= i < after.len() && (#[trigger] after[i]).milestone_key == key
                && after[i].is_approved;
        assert(milestones[i].milestone_key == key);
    }
}

/// Making milestones eligible for a refund leaves every milestone in place and
/// approved or not as it was.
pub proof fn lemma_refundable_keeps(
    milestones: Seq<Milestone>,
    keys: Seq<MilestoneKey>,
    key: MilestoneKey,
)
    ensures
        has_milestone(refundable(milestones, keys), key) == has_milestone(milestones, key),
        has_approved(refundable(milestones, keys), key) == has_approved(milestones, key),
{
    let after = refundable(milestones, keys);
    if has_milestone(milestones, key) {
        let i = choose|i: int|
            0 <= i < milestones.len() && (#[trigger] milestones[i]).milestone_key == key;
        assert(after[i].milestone_key == key);
    }
    if has_milestone(after, key) {
        let i = choose|i: int| 0 <= i < after.len() && (#[trigger] after[i]).milestone_key == key;
        assert(milestones[i].milestone_key == key);
    }
    if has_approved(milestones, key) {
        let i = choose|i: int|
            0 <= i < milestones.len() && (#[trigger] milestones[i]).milestone_key == key
                && milestones[i].is_approved;
        assert(after[i].milestone_key == key && after[i].is_approved);
    }
    if has_approved(after, key) {
        let i = choose|i: int|
            0 <= i < after.len() && (#[trigger] after[i]).milestone_key == key
                && after[i].is_approved;
        assert(milestones[i].milestone_key == key && milestones[i].is_approved);
    }
}

/// A state with the projects, rounds, count and index of a consistent one is
/// consistent.
pub proof fn lemma_consistent_frame(before: State, after: State)
    requires
        before.consistent(),
        after.projects == before.projects,
        after.rounds == before.rounds,
        after.rounds_expiring == before.rounds_expiring,
        after.project_count == before.project_count,
    ensures
        after.consistent(),
{
    assert forall|id: u128| #[trigger] after.rounds.contains_key(id) implies round_in_order(
        after,
        id,
    ) by {
        assert(round_in_order(before, id));
    }
}

/// Closing a round keeps the state consistent.
pub proof fn lemma_round_closed_consistent(s: State, id: u128)
    requires
        s.consistent(),
    ensures
        s.round_closed(id).consistent(),
{
    let after = s.round_closed(id);
    let at = s.rounds[id].expires_at;
    assert forall|other: u128| #[trigger] after.rounds.contains_key(other) implies round_in_order(
        after,
        other,
    ) && after.rounds_expiring[after.rounds[other].expires_at].contains(other) by {
        assert(s.rounds.contains_key(other));
        assert(round_in_order(s, other));
        lemma_remove_value_contains(s.rounds_expiring[at], id, other);
    }
}

/// Opening a round that stands under its own entry, on a project within the
/// count and, if it votes on a milestone, on one that exists and is not
/// approved, keeps the state consistent.
pub proof fn lemma_round_opened_consistent(s: State, round: RoundView)
    requires
        s.consistent(),
        round.round_type == RoundType::VoteOfNoConfidence ==> round.milestone_key == 0,
        round.project_key <= s.project_count,
        round.round_type == RoundType::VotingRound && s.projects.contains_key(round.project_key)
            ==> has_milestone(s.projects[round.project_key].milestones, round.milestone_key)
            && !has_approved(s.projects[round.project_key].milestones, round.milestone_key),
    ensures
        s.round_opened(round).consistent(),
{
    let after = s.round_opened(round);
    let id = round_id(round.round_type, round.project_key, round.milestone_key);
    assert forall|other: u128| #[trigger] after.rounds.contains_key(other) implies round_in_order(
        after,
        other,
    ) && after.rounds_expiring[after.rounds[other].expires_at].contains(other) by {
        lemma_push_contains(s.rounds_expiring[round.expires_at], id, other);
        if other != id {
            assert(s.rounds.contains_key(other));
            assert(round_in_order(s, other));
        }
    }
}

/// Counting a vote in an open round keeps the state consistent.
pub proof fn lemma_round_updated_consistent(s: State, id: u128, round: RoundView)
    requires
        s.consistent(),
        s.rounds.contains_key(id),
        round.round_type == s.rounds[id].round_type,
        round.project_key == s.rounds[id].project_key,
        round.milestone_key == s.rounds[id].milestone_key,
        round.expires_at == s.rounds[id].expires_at,
    ensures
        (State { rounds: s.rounds.insert(id, round), ..s }).consistent(),
{
    let after = State { rounds: s.rounds.insert(id, round), ..s };
    assert forall|other: u128| #[trigger] after.rounds.contains_key(other) implies round_in_order(
        after,
        other,
    ) && after.rounds_expiring[after.rounds[other].expires_at].contains(other) by {
        assert(s.rounds.contains_key(other));
        assert(round_in_order(s, other));
    }
}

/// Approving the milestone of a round that has just been closed keeps the
/// state consistent.
pub proof fn lemma_approved_consistent(
    s: State,
    project_key: ProjectKey,
    milestone_key: MilestoneKey,
)
    requires
        s.consistent(),
        s.projects.contains_key(project_key),
        !s.rounds.contains_key(round_id(RoundType::VotingRound, project_key, milestone_key)),
    ensures
        (State {
            projects: s.projects.insert(
                project_key,
                s.projects[project_key].with_approved(milestone_key),
            ),
            ..s
        }).consistent(),
{
    let project = s.projects[project_key];
    let after = State {
        projects: s.projects.insert(project_key, project.with_approved(milestone_key)),
        ..s
    };
    assert forall|other: u128| #[trigger] after.rounds.contains_key(other) implies round_in_order(
        after,
        other,
    ) by {
        assert(s.rounds.contains_key(other));
        assert(round_in_order(s, other));
        let round = s.rounds[other];
        if round.round_type == RoundType::VotingRound && round.project_key == project_key {
            lemma_approved_has_milestone(project.milestones, milestone_key, round.milestone_key);
            lemma_approved_has_approved(project.milestones, milestone_key, round.milestone_key);
        }
    }
}

/// Creating a project keeps the state consistent.
pub proof fn lemma_converted_consistent(
    s: State,
    cfg: Config,
    currency_id: CurrencyId,
    contributions: Seq<(AccountId, Contribution)>,
    brief_hash: AgreementHash,
    beneficiary: AccountId,
    milestones: Seq<ProposedMilestone>,
    funding_type: FundingType,
)
    requires
        s.consistent(),
        s.project_count < u32::MAX,
    ensures
        s.converted(
            cfg,
            currency_id,
            contributions,
            brief_hash,
            beneficiary,
            milestones,
            funding_type,
        ).consistent(),
{
    let after = s.converted(
        cfg,
        currency_id,
        contributions,
        brief_hash,
        beneficiary,
        milestones,
        funding_type,
    );
    let key = (s.project_count + 1) as u32;
    assert forall|other: u128| #[trigger] after.rounds.contains_key(other) implies round_in_order(
        after,
        other,
    ) by {
        assert(s.rounds.contains_key(other));
        assert(round_in_order(s, other));
    }
}

/// Submitting a milestone keeps the state consistent.
pub proof fn lemma_submitted_consistent(
    s: State,
    cfg: Config,
    who: AccountId,
    project_key: ProjectKey,
    milestone_key: MilestoneKey,
)
    requires
        s.consistent(),
        counted(s.projects, s.project_count),
        s.submit_outcome(cfg, who, project_key, milestone_key).is_ok(),
    ensures
        s.submitted(cfg, who, project_key, milestone_key).consistent(),
{
    let round = RoundView {
        round_type: RoundType::VotingRound,
        project_key,
        milestone_key,
        expires_at: deadline(s.now, cfg.milestone_voting_window),
        vote: Vote { yay: 0, nay: 0, is_approved: false },
        ballots: Seq::empty(),
    };
    assert(s.projects.contains_key(project_key));
    lemma_round_opened_consistent(s, round);
    lemma_consistent_frame(
        s.round_opened(round),
        s.submitted(cfg, who, project_key, milestone_key),
    );
}

/// Deciding a round keeps the state consistent.
pub proof fn lemma_auto_finalised_consistent(
    s: State,
    who: AccountId,
    project_key: ProjectKey,
    milestone_key: MilestoneKey,
    vote: Vote,
    threshold: Balance,
)
    requires
        s.consistent(),
    ensures
        s.auto_finalised(who, project_key, milestone_key, vote, threshold).consistent(),
{
    let id = round_id(RoundType::VotingRound, project_key, milestone_key);
    let after = s.auto_finalised(who, project_key, milestone_key, vote, threshold);
    if vote.yay >= threshold {
        lemma_round_closed_consistent(s, id);
        let closed = s.round_closed(id);
        if s.projects.contains_key(project_key) {
            lemma_approved_consistent(closed, project_key, milestone_key);
            let approved = State {
                projects: closed.projects.insert(
                    project_key,
                    closed.projects[project_key].with_approved(milestone_key),
                ),
                ..closed
            };
            lemma_consistent_frame(approved, after);
        } else {
            lemma_consistent_frame(closed, after);
        }
    } else if vote.nay >= threshold {
        lemma_round_closed_consistent(s, id);
        lemma_consistent_frame(s.round_closed(id), after);
    }
}

/// A vote on a milestone keeps the state consistent.
pub proof fn lemma_voted_consistent(
    s: State,
    cfg: Config,
    who: AccountId,
    project_key: ProjectKey,
    milestone_key: MilestoneKey,
    approve: bool,
)
    requires
        s.consistent(),
        s.vote_outcome(who, project_key, milestone_key).is_ok(),
    ensures
        s.voted(cfg, who, project_key, milestone_key, approve).consistent(),
{
    let id = round_id(RoundType::VotingRound, project_key, milestone_key);
    let round = s.round_after_vote(who, project_key, milestone_key, approve);
    lemma_round_updated_consistent(s, id, round);
    let counted = State { rounds: s.rounds.insert(id, round), ..s };
    let threshold = cfg.threshold(s.projects[project_key]) as u128;
    lemma_auto_finalised_consistent(
        counted,
        who,
        project_key,
        milestone_key,
        round.vote,
        threshold,
    );
    lemma_consistent_frame(
        counted.auto_finalised(who, project_key, milestone_key, round.vote, threshold),
        s.voted(cfg, who, project_key, milestone_key, approve),
    );
}

/// A withdrawal keeps the state consistent.
pub proof fn lemma_withdrawn_consistent(
    s: State,
    cfg: Config,
    who: AccountId,
    project_key: ProjectKey,
)
    requires
        s.consistent(),
        s.withdrawal(cfg, who, project_key).is_ok(),
    ensures
        s.withdrawn(who, project_key, s.withdrawal(cfg, who, project_key).unwrap()).consistent(),
{
    let plan = s.withdrawal(cfg, who, project_key).unwrap();
    let after = s.withdrawn(who, project_key, plan);
    assert forall|other: u128| #[trigger] after.rounds.contains_key(other) implies round_in_order(
        after,
        other,
    ) by {
        assert(s.rounds.contains_key(other));
        assert(round_in_order(s, other));
    }
}

/// Raising a vote of no confidence keeps the state consistent.
pub proof fn lemma_no_confidence_raised_consistent(
    s: State,
    cfg: Config,
    who: AccountId,
    project_key: ProjectKey,
)
    requires
        s.consistent(),
        counted(s.projects, s.project_count),
        s.no_confidence_outcome(cfg, who, project_key).is_ok(),
    ensures
        s.no_confidence_raised(cfg, who, project_key).consistent(),
{
    let weight = s.projects[project_key].contribution_of(who).unwrap().value;
    let round = RoundView {
        round_type: RoundType::VoteOfNoConfidence,
        project_key,
        milestone_key: 0,
        expires_at: deadline(s.now, cfg.no_confidence_time_limit),
        vote: Vote { yay: 0, nay: weight, is_approved: false },
        ballots: seq![(who, false)],
    };
    assert(s.projects.contains_key(project_key));
    lemma_round_opened_consistent(s, round);
    lemma_consistent_frame(s.round_opened(round), s.no_confidence_raised(cfg, who, project_key));
}

/// A vote in a vote of no confidence keeps the state consistent.
pub proof fn lemma_no_confidence_voted_consistent(
    s: State,
    who: AccountId,
    project_key: ProjectKey,
    is_yay: bool,
)
    requires
        s.consistent(),
        s.no_confidence_vote_outcome(who, project_key).is_ok(),
    ensures
        s.no_confidence_voted(who, project_key, is_yay).consistent(),
{
    let id = round_id(RoundType::VoteOfNoConfidence, project_key, 0);
    let weight = s.projects[project_key].contribution_of(who).unwrap().value;
    let round = s.rounds[id].with_ballot(who, is_yay, weight);
    lemma_round_updated_consistent(s, id, round);
    lemma_consistent_frame(
        State { rounds: s.rounds.insert(id, round), ..s },
        s.no_confidence_voted(who, project_key, is_yay),
    );
}

/// Finalising a vote of no confidence keeps the state consistent.
pub proof fn lemma_no_confidence_finalised_consistent(
    s: State,
    who: AccountId,
    project_key: ProjectKey,
)
    requires
        s.consistent(),
        s.projects.contains_key(project_key),
    ensures
        s.no_confidence_finalised(who, project_key).consistent(),
{
    let id = round_id(RoundType::VoteOfNoConfidence, project_key, 0);
    lemma_round_closed_consistent(s, id);
    let closed = s.round_closed(id);
    let after = s.no_confidence_finalised(who, project_key);
    assert forall|other: u128| #[trigger] after.rounds.contains_key(other) implies round_in_order(
        after,
        other,
    ) && after.rounds_expiring[after.rounds[other].expires_at].contains(other) by {
        assert(closed.rounds.contains_key(other));
        assert(round_in_order(closed, other));
    }
}

/// Being told of a completed dispute keeps the state consistent.
pub proof fn lemma_dispute_completed_consistent(
    s: State,
    project_key: ProjectKey,
    specifiers: Seq<MilestoneKey>,
    result: DisputeResult,
)
    requires
        s.consistent(),
    ensures
        s.dispute_completed(project_key, specifiers, result).consistent(),
{
    let after = s.dispute_completed(project_key, specifiers, result);
    if result == DisputeResult::Success && s.projects.contains_key(project_key) {
        let project = s.projects[project_key];
        assert forall|other: u128| #[trigger]
            after.rounds.contains_key(other) implies round_in_order(after, other) by {
            assert(s.rounds.contains_key(other));
            assert(round_in_order(s, other));
            if s.rounds[other].project_key == project_key {
                lemma_refundable_keeps(
                    project.milestones,
                    specifiers,
                    s.rounds[other].milestone_key,
                );
            }
        }
    } else {
        lemma_consistent_frame(s, after);
    }
}

/// An entry among `first` and `pending` that is not `first` is among
/// `pending`.
proof fn lemma_rest_contains(first: u128, pending: Seq<u128>, id: u128)
    requires
        (seq![first] + pending).contains(id),
        id != first,
    ensures
        pending.contains(id),
{
    let all = seq![first] + pending;
    let i = choose|i: int| 0 <= i < all.len() && all[i] == id;
    assert(pending[i - 1] == id);
}

/// Sweeping entries keeps the rounds in order, and works off what is pending:
/// what closes at `block` and is still open has its entry among those not swept
/// yet.
proof fn lemma_swept_pending(s: State, block: BlockNumber, done: Seq<u128>, pending: Seq<u128>)
    requires
        rounds_in_order(s),
        indexed_but(s, block, done + pending),
    ensures
        rounds_in_order(s.swept(done)),
        indexed_but(s.swept(done), block, pending),
    decreases done.len(),
{
    if done.len() == 0 {
        assert(done + pending =~= pending);
    } else {
        let front = done.drop_last();
        let id = done.last();
        let rest = seq![id] + pending;
        assert(front + rest =~= done + pending);
        lemma_swept_pending(s, block, front, rest);
        let before = s.swept(front);
        let after = s.swept(done);
        let at = before.rounds[id].expires_at;
        assert forall|other: u128| #[trigger]
            after.rounds.contains_key(other) implies round_in_order(after, other)
            && round_indexed_but(after, block, pending, other) by {
            assert(before.rounds.contains_key(other));
            assert(round_in_order(before, other));
            assert(round_indexed_but(before, block, rest, other));
            if before.rounds[other].expires_at == block {
                lemma_rest_contains(id, pending, other);
            } else if before.rounds.contains_key(id) {
                lemma_remove_value_contains(before.rounds_expiring[at], id, other);
            }
        }
    }
}

/// The sweep of a block keeps the state consistent, and leaves no round open
/// that closes at the block.
pub proof fn lemma_initialized_consistent(s: State, block: BlockNumber)
    requires
        s.consistent(),
    ensures
        s.initialized(block).consistent(),
        forall|id: u128| #[trigger]
            s.initialized(block).rounds.contains_key(id) ==> s.initialized(
                block,
            ).rounds[id].expires_at != block,
{
    let ids = s.rounds_expiring[block];
    let drained = s.drained(block);
    let none = Seq::<u128>::empty();
    assert(ids + none =~= ids);
    assert forall|id: u128| #[trigger] drained.rounds.contains_key(id) implies round_in_order(
        drained,
        id,
    ) && round_indexed_but(drained, block, ids + none, id) by {
        assert(s.rounds.contains_key(id));
        assert(round_in_order(s, id));
    }
    lemma_swept_pending(drained, block, ids, none);
    let after = s.initialized(block);
    assert forall|id: u128| #[trigger]
        after.rounds.contains_key(id) implies after.rounds[id].expires_at != block
        && after.rounds_expiring[after.rounds[id].expires_at].contains(id) by {
        assert(round_indexed_but(after, block, none, id));
    }
}

} // verus!
