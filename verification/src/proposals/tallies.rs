//! No vote on a milestone stays open once a vote has decided it: whatever
//! sequence of votes a round sees, its tally is short of the threshold on both
//! sides for as long as the round is open and somebody has voted in it.
use crate::disputes::DisputeResult;
use crate::percent::lemma_percent_of_bounded;
use crate::proposals::consistency::round_in_order;
use crate::proposals::model::{deadline, Config, State};
use crate::proposals::project::{Contribution, ProposedMilestone, RoundType, Vote};
use crate::proposals::round::{round_id, RoundView};
use crate::types::{
    AccountId, AgreementHash, Balance, BlockNumber, CurrencyId, FundingType, MilestoneKey,
    ProjectKey,
};
use vstd::prelude::*;

verus! {

/// Whether the round under `id` is undecided: if it is a vote on a milestone
/// of a project that exists and has been voted in, the weight on either side is
/// short of the threshold.
pub open spec fn round_undecided(s: State, cfg: Config, id: u128) -> bool {
    let round = s.rounds[id];
    round.round_type == RoundType::VotingRound && s.projects.contains_key(round.project_key)
        && round.ballots.len() > 0 ==> round.vote.yay < cfg.threshold(
        s.projects[round.project_key],
    ) && round.vote.nay < cfg.threshold(s.projects[round.project_key])
}

/// Every open round is undecided.
pub open spec fn undecided(s: State, cfg: Config) -> bool {
    forall|id: u128| #[trigger] s.rounds.contains_key(id) ==> round_undecided(s, cfg, id)
}

/// A state with the projects and rounds of one whose rounds are undecided has
/// its rounds undecided.
pub proof fn lemma_undecided_frame(before: State, after: State, cfg: Config)
    requires
        undecided(before, cfg),
        after.projects == before.projects,
        after.rounds == before.rounds,
    ensures
        undecided(after, cfg),
{
    assert forall|id: u128| #[trigger] after.rounds.contains_key(id) implies round_undecided(
        after,
        cfg,
        id,
    ) by {
        assert(round_undecided(before, cfg, id));
    }
}

/// Rounds stay undecided when rounds are taken away and projects are changed
/// or taken away without a change to what they raised.
pub proof fn lemma_undecided_shrinks(before: State, after: State, cfg: Config)
    requires
        undecided(before, cfg),
        forall|id: u128| #[trigger]
            after.rounds.contains_key(id) ==> before.rounds.contains_key(id) && after.rounds[id]
                == before.rounds[id],
        forall|key: ProjectKey| #[trigger]
            after.projects.contains_key(key) ==> before.projects.contains_key(key)
                && after.projects[key].raised_funds == before.projects[key].raised_funds,
    ensures
        undecided(after, cfg),
{
    assert forall|id: u128| #[trigger] after.rounds.contains_key(id) implies round_undecided(
        after,
        cfg,
        id,
    ) by {
        assert(before.rounds.contains_key(id));
        assert(round_undecided(before, cfg, id));
        let key = after.rounds[id].project_key;
        if after.projects.contains_key(key) {
            assert(before.projects.contains_key(key));
        }
    }
}

/// Closing a round leaves the others undecided.
pub proof fn lemma_round_closed_undecided(s: State, cfg: Config, id: u128)
    requires
        undecided(s, cfg),
    ensures
        undecided(s.round_closed(id), cfg),
{
    lemma_undecided_shrinks(s, s.round_closed(id), cfg);
}

/// Creating a project leaves every round undecided.
pub proof fn lemma_converted_undecided(
    s: State,
    cfg: Config,
    currency_id: CurrencyId,
    contributions: Seq<(AccountId, Contribution)>,
    brief_hash: AgreementHash,
    beneficiary: AccountId,
    milestones: Seq<ProposedMilestone>,
    funding_type: FundingType,
)
    requires
        s.consistent(),
        undecided(s, cfg),
        s.project_count < u32::MAX,
    ensures
        undecided(
            s.converted(
                cfg,
                currency_id,
                contributions,
                brief_hash,
                beneficiary,
                milestones,
                funding_type,
            ),
            cfg,
        ),
{
    let after = s.converted(
        cfg,
        currency_id,
        contributions,
        brief_hash,
        beneficiary,
        milestones,
        funding_type,
    );
    assert forall|id: u128| #[trigger] after.rounds.contains_key(id) implies round_undecided(
        after,
        cfg,
        id,
    ) by {
        assert(s.rounds.contains_key(id));
        assert(round_undecided(s, cfg, id));
        assert(round_in_order(s, id));
    }
}

/// Opening a round in which nobody has voted, or a vote of no confidence,
/// leaves every round undecided.
pub proof fn lemma_round_opened_undecided(s: State, cfg: Config, round: RoundView)
    requires
        undecided(s, cfg),
        round.round_type == RoundType::VoteOfNoConfidence || round.ballots.len() == 0,
    ensures
        undecided(s.round_opened(round), cfg),
{
    let after = s.round_opened(round);
    let id = round_id(round.round_type, round.project_key, round.milestone_key);
    assert forall|other: u128| #[trigger]
        after.rounds.contains_key(other) implies round_undecided(after, cfg, other) by {
        if other != id {
            assert(s.rounds.contains_key(other));
            assert(round_undecided(s, cfg, other));
        }
    }
}

/// Submitting a milestone leaves every round undecided.
pub proof fn lemma_submitted_undecided(
    s: State,
    cfg: Config,
    who: AccountId,
    project_key: ProjectKey,
    milestone_key: MilestoneKey,
)
    requires
        undecided(s, cfg),
    ensures
        undecided(s.submitted(cfg, who, project_key, milestone_key), cfg),
{
    let round = RoundView {
        round_type: RoundType::VotingRound,
        project_key,
        milestone_key,
        expires_at: deadline(s.now, cfg.milestone_voting_window),
        vote: Vote { yay: 0, nay: 0, is_approved: false },
        ballots: Seq::empty(),
    };
    lemma_round_opened_undecided(s, cfg, round);
    lemma_undecided_frame(
        s.round_opened(round),
        s.submitted(cfg, who, project_key, milestone_key),
        cfg,
    );
}

/// Raising a vote of no confidence leaves every vote on a milestone
/// undecided.
pub proof fn lemma_no_confidence_raised_undecided(
    s: State,
    cfg: Config,
    who: AccountId,
    project_key: ProjectKey,
)
    requires
        undecided(s, cfg),
    ensures
        undecided(s.no_confidence_raised(cfg, who, project_key), cfg),
{
    let weight = s.projects[project_key].contribution_of(who).unwrap().value;
    let round = RoundView {
        round_type: RoundType::VoteOfNoConfidence,
        project_key,
        milestone_key: 0,
        expires_at: deadline(s.now, cfg.no_confidence_time_limit),
        vote: Vote { yay: 0, nay: weight, is_approved: false },
        ballots: seq![(who, false)],
    };
    lemma_round_opened_undecided(s, cfg, round);
    lemma_undecided_frame(
        s.round_opened(round),
        s.no_confidence_raised(cfg, who, project_key),
        cfg,
    );
}

/// Deciding a round on a tally leaves every round undecided, whatever the
/// tally.
pub proof fn lemma_auto_finalised_undecided(
    s: State,
    cfg: Config,
    who: AccountId,
    project_key: ProjectKey,
    milestone_key: MilestoneKey,
    vote: Vote,
    threshold: Balance,
)
    requires
        undecided(s, cfg),
    ensures
        undecided(s.auto_finalised(who, project_key, milestone_key, vote, threshold), cfg),
{
    let after = s.auto_finalised(who, project_key, milestone_key, vote, threshold);
    if vote.yay >= threshold || vote.nay >= threshold {
        assert forall|key: ProjectKey| #[trigger]
            after.projects.contains_key(key) implies s.projects.contains_key(key)
            && after.projects[key].raised_funds == s.projects[key].raised_funds by {
            if key != project_key {
                assert(s.projects.contains_key(key));
            }
        }
        lemma_undecided_shrinks(s, after, cfg);
    }
}

/// A vote on a milestone leaves every round undecided: the round voted in is
/// closed if the vote decides it, and short of the threshold if not.
pub proof fn lemma_voted_undecided(
    s: State,
    cfg: Config,
    who: AccountId,
    project_key: ProjectKey,
    milestone_key: MilestoneKey,
    approve: bool,
)
    requires
        s.consistent(),
        undecided(s, cfg),
        s.vote_outcome(who, project_key, milestone_key).is_ok(),
    ensures
        undecided(s.voted(cfg, who, project_key, milestone_key, approve), cfg),
{
    let id = round_id(RoundType::VotingRound, project_key, milestone_key);
    let project = s.projects[project_key];
    let round = s.round_after_vote(who, project_key, milestone_key, approve);
    let threshold = cfg.threshold(project);
    let after = s.voted(cfg, who, project_key, milestone_key, approve);
    lemma_percent_of_bounded(cfg.percent_required_for_vote_to_pass, project.raised_funds);
    assert(s.rounds.contains_key(id));
    assert(round_in_order(s, id));
    assert forall|other: u128| #[trigger]
        after.rounds.contains_key(other) implies round_undecided(after, cfg, other) by {
        if other != id {
            assert(s.rounds.contains_key(other));
            assert(round_undecided(s, cfg, other));
            let key = s.rounds[other].project_key;
            if after.projects.contains_key(key) && key != project_key {
                assert(s.projects.contains_key(key));
            }
        }
    }
}

/// A withdrawal leaves every round undecided.
pub proof fn lemma_withdrawn_undecided(
    s: State,
    cfg: Config,
    who: AccountId,
    project_key: ProjectKey,
)
    requires
        undecided(s, cfg),
        s.withdrawal(cfg, who, project_key).is_ok(),
    ensures
        undecided(
            s.withdrawn(who, project_key, s.withdrawal(cfg, who, project_key).unwrap()),
            cfg,
        ),
{
    let after = s.withdrawn(who, project_key, s.withdrawal(cfg, who, project_key).unwrap());
    assert forall|key: ProjectKey| #[trigger]
        after.projects.contains_key(key) implies s.projects.contains_key(key)
        && after.projects[key].raised_funds == s.projects[key].raised_funds by {
        if key != project_key {
            assert(s.projects.contains_key(key));
        }
    }
    lemma_undecided_shrinks(s, after, cfg);
}

/// A vote in a vote of no confidence leaves every vote on a milestone
/// undecided.
pub proof fn lemma_no_confidence_voted_undecided(
    s: State,
    cfg: Config,
    who: AccountId,
    project_key: ProjectKey,
    is_yay: bool,
)
    requires
        s.consistent(),
        undecided(s, cfg),
        s.no_confidence_vote_outcome(who, project_key).is_ok(),
    ensures
        undecided(s.no_confidence_voted(who, project_key, is_yay), cfg),
{
    let id = round_id(RoundType::VoteOfNoConfidence, project_key, 0);
    let after = s.no_confidence_voted(who, project_key, is_yay);
    assert(s.rounds.contains_key(id));
    assert(round_in_order(s, id));
    assert forall|other: u128| #[trigger]
        after.rounds.contains_key(other) implies round_undecided(after, cfg, other) by {
        if other != id {
            assert(s.rounds.contains_key(other));
            assert(round_undecided(s, cfg, other));
        }
    }
}

/// Finalising a vote of no confidence leaves every round undecided.
pub proof fn lemma_no_confidence_finalised_undecided(
    s: State,
    cfg: Config,
    who: AccountId,
    project_key: ProjectKey,
)
    requires
        undecided(s, cfg),
        s.projects.contains_key(project_key),
    ensures
        undecided(s.no_confidence_finalised(who, project_key), cfg),
{
    let after = s.no_confidence_finalised(who, project_key);
    assert forall|key: ProjectKey| #[trigger]
        after.projects.contains_key(key) implies s.projects.contains_key(key)
        && after.projects[key].raised_funds == s.projects[key].raised_funds by {
        if key != project_key {
            assert(s.projects.contains_key(key));
        }
    }
    lemma_undecided_shrinks(s, after, cfg);
}

/// Being told of a completed dispute leaves every round undecided.
pub proof fn lemma_dispute_completed_undecided(
    s: State,
    cfg: Config,
    project_key: ProjectKey,
    specifiers: Seq<MilestoneKey>,
    result: DisputeResult,
)
    requires
        undecided(s, cfg),
    ensures
        undecided(s.dispute_completed(project_key, specifiers, result), cfg),
{
    let after = s.dispute_completed(project_key, specifiers, result);
    assert forall|key: ProjectKey| #[trigger]
        after.projects.contains_key(key) implies s.projects.contains_key(key)
        && after.projects[key].raised_funds == s.projects[key].raised_funds by {
        if key != project_key {
            assert(s.projects.contains_key(key));
        }
    }
    lemma_undecided_shrinks(s, after, cfg);
}

/// A sweep leaves every round undecided.
pub proof fn lemma_swept_undecided(s: State, cfg: Config, ids: Seq<u128>)
    requires
        undecided(s, cfg),
    ensures
        undecided(s.swept(ids), cfg),
    decreases ids.len(),
{
    if ids.len() > 0 {
        lemma_swept_undecided(s, cfg, ids.drop_last());
        let before = s.swept(ids.drop_last());
        if before.rounds.contains_key(ids.last()) {
            lemma_round_closed_undecided(before, cfg, ids.last());
        }
    }
}

/// The sweep of a block leaves every round undecided.
pub proof fn lemma_initialized_undecided(s: State, cfg: Config, block: BlockNumber)
    requires
        undecided(s, cfg),
    ensures
        undecided(s.initialized(block), cfg),
{
    lemma_undecided_frame(s, s.drained(block), cfg);
    lemma_swept_undecided(s.drained(block), cfg, s.rounds_expiring[block]);
}

} // verus!
