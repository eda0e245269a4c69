//! The project engine is orderly, and stays so whatever it is asked to do: the
//! rounds agree with the projects and with the index of expiring rounds, no
//! vote on a milestone stays open once a vote has decided it, every tally is
//! the weight behind its ballots, and no account has contributed twice to a
//! project.
use crate::disputes::DisputeResult;
use crate::per_account::distinct_accounts;
use crate::percent::lemma_percent_of_bounded;
use crate::proposals::consistency::{
    lemma_auto_finalised_consistent, lemma_consistent_frame, lemma_converted_consistent,
    lemma_dispute_completed_consistent, lemma_initialized_consistent,
    lemma_no_confidence_finalised_consistent, lemma_no_confidence_raised_consistent,
    lemma_no_confidence_voted_consistent, lemma_round_closed_consistent, lemma_submitted_consistent,
    lemma_voted_consistent, lemma_withdrawn_consistent, round_in_order,
};
use crate::proposals::laws::law_sweep_leaves_projects_alone;
use crate::proposals::model::{deadline, Config, State};
use crate::proposals::project::{Contribution, ProjectView, ProposedMilestone, RoundType, Vote};
use crate::proposals::round::{round_id, RoundView};
use crate::proposals::tallies::{
    lemma_auto_finalised_undecided, lemma_converted_undecided, lemma_dispute_completed_undecided,
    lemma_initialized_undecided, lemma_no_confidence_finalised_undecided,
    lemma_no_confidence_raised_undecided, lemma_no_confidence_voted_undecided,
    lemma_round_closed_undecided, lemma_submitted_undecided, lemma_undecided_frame,
    lemma_voted_undecided, lemma_withdrawn_undecided, round_undecided, undecided,
};
use crate::proposals::weights::{
    exact_total, lemma_ballot_tallied, lemma_ballots_within_total, lemma_converted_tallied,
    lemma_round_opened_tallied, lemma_tallied_shrinks, round_weighed, side_weight, tallied,
};
use crate::types::{
    AccountId, AgreementHash, Balance, BlockNumber, CurrencyId, FundingType, MilestoneKey,
    ProjectKey,
};
use vstd::prelude::*;

verus! {

/// No account has contributed twice to a project.
pub open spec fn one_contribution_each(projects: Map<ProjectKey, ProjectView>) -> bool {
    forall|key: ProjectKey| #[trigger]
        projects.contains_key(key) ==> distinct_accounts(projects[key].contributions)
}

impl State {
    /// The rounds agree with the projects and with the index, every open vote
    /// on a milestone is undecided, every tally is the weight behind its
    /// ballots, and no account has contributed twice to a project.
    pub open spec fn orderly(self, cfg: Config) -> bool {
        &&& self.consistent()
        &&& undecided(self, cfg)
        &&& tallied(self)
        &&& one_contribution_each(self.projects)
    }
}

/// Contributions stay one for each account when projects are changed or taken
/// away without a change to their contributions.
proof fn lemma_contributions_kept(
    before: Map<ProjectKey, ProjectView>,
    after: Map<ProjectKey, ProjectView>,
)
    requires
        one_contribution_each(before),
        forall|key: ProjectKey| #[trigger]
            after.contains_key(key) ==> before.contains_key(key) && after[key].contributions
                == before[key].contributions,
    ensures
        one_contribution_each(after),
{
    assert forall|key: ProjectKey| #[trigger] after.contains_key(key) implies distinct_accounts(
        after[key].contributions,
    ) by {
        assert(before.contains_key(key));
    }
}

/// An engine that has seen nothing is orderly.
pub proof fn law_empty_is_orderly(cfg: Config)
    ensures
        State::empty().orderly(cfg),
{
}

/// A state with the projects, rounds, count and index of an orderly one is
/// orderly.
pub proof fn lemma_orderly_frame(before: State, after: State, cfg: Config)
    requires
        before.orderly(cfg),
        after.projects == before.projects,
        after.rounds == before.rounds,
        after.rounds_expiring == before.rounds_expiring,
        after.project_count == before.project_count,
    ensures
        after.orderly(cfg),
{
    lemma_consistent_frame(before, after);
    lemma_undecided_frame(before, after, cfg);
    lemma_tallied_shrinks(before, after);
}

/// Closing a round keeps the engine orderly.
pub proof fn law_round_closed_orderly(s: State, cfg: Config, id: u128)
    requires
        s.orderly(cfg),
    ensures
        s.round_closed(id).orderly(cfg),
{
    lemma_round_closed_consistent(s, id);
    lemma_round_closed_undecided(s, cfg, id);
    lemma_tallied_shrinks(s, s.round_closed(id));
}

/// Creating a project keeps the engine orderly.
pub proof fn law_converted_orderly(
    s: State,
    cfg: Config,
    currency_id: CurrencyId,
    contributions: Seq<(AccountId, Contribution)>,
    brief_hash: AgreementHash,
    beneficiary: AccountId,
    milestones: Seq<ProposedMilestone>,
    funding_type: FundingType,
)
    requires
        s.orderly(cfg),
        s.conversion_outcome(cfg, contributions, milestones).is_ok(),
    ensures
        s.converted(
            cfg,
            currency_id,
            contributions,
            brief_hash,
            beneficiary,
            milestones,
            funding_type,
        ).orderly(cfg),
{
    let after = s.converted(
        cfg,
        currency_id,
        contributions,
        brief_hash,
        beneficiary,
        milestones,
        funding_type,
    );
    assert forall|key: ProjectKey| #[trigger]
        after.projects.contains_key(key) implies distinct_accounts(
        after.projects[key].contributions,
    ) by {
        if key != s.project_count + 1 {
            assert(s.projects.contains_key(key));
        }
    }
    lemma_converted_consistent(
        s,
        cfg,
        currency_id,
        contributions,
        brief_hash,
        beneficiary,
        milestones,
        funding_type,
    );
    lemma_converted_undecided(
        s,
        cfg,
        currency_id,
        contributions,
        brief_hash,
        beneficiary,
        milestones,
        funding_type,
    );
    lemma_converted_tallied(
        s,
        cfg,
        currency_id,
        contributions,
        brief_hash,
        beneficiary,
        milestones,
        funding_type,
    );
}

/// Submitting a milestone keeps the engine orderly.
pub proof fn law_submitted_orderly(
    s: State,
    cfg: Config,
    who: AccountId,
    project_key: ProjectKey,
    milestone_key: MilestoneKey,
)
    requires
        s.orderly(cfg),
        s.inv(cfg),
        s.submit_outcome(cfg, who, project_key, milestone_key).is_ok(),
    ensures
        s.submitted(cfg, who, project_key, milestone_key).orderly(cfg),
{
    lemma_submitted_consistent(s, cfg, who, project_key, milestone_key);
    lemma_submitted_undecided(s, cfg, who, project_key, milestone_key);
    let round = RoundView {
        round_type: RoundType::VotingRound,
        project_key,
        milestone_key,
        expires_at: deadline(s.now, cfg.milestone_voting_window),
        vote: Vote { yay: 0, nay: 0, is_approved: false },
        ballots: Seq::empty(),
    };
    lemma_round_opened_tallied(s, round);
    lemma_tallied_shrinks(s.round_opened(round), s.submitted(cfg, who, project_key, milestone_key));
}

/// Deciding a round on a tally keeps the engine orderly, whatever the tally.
pub proof fn law_auto_finalised_orderly(
    s: State,
    cfg: Config,
    who: AccountId,
    project_key: ProjectKey,
    milestone_key: MilestoneKey,
    vote: Vote,
    threshold: Balance,
)
    requires
        s.orderly(cfg),
    ensures
        s.auto_finalised(who, project_key, milestone_key, vote, threshold).orderly(cfg),
{
    lemma_auto_finalised_consistent(s, who, project_key, milestone_key, vote, threshold);
    lemma_auto_finalised_undecided(s, cfg, who, project_key, milestone_key, vote, threshold);
    let after = s.auto_finalised(who, project_key, milestone_key, vote, threshold);
    assert forall|key: ProjectKey| #[trigger]
        after.projects.contains_key(key) implies s.projects.contains_key(key)
        && after.projects[key].contributions == s.projects[key].contributions by {
        if key != project_key {
            assert(s.projects.contains_key(key));
        }
    }
    lemma_tallied_shrinks(s, after);
    lemma_contributions_kept(s.projects, after.projects);
}

/// A vote on a milestone keeps the engine orderly.
pub proof fn law_voted_orderly(
    s: State,
    cfg: Config,
    who: AccountId,
    project_key: ProjectKey,
    milestone_key: MilestoneKey,
    approve: bool,
)
    requires
        s.orderly(cfg),
        s.vote_outcome(who, project_key, milestone_key).is_ok(),
    ensures
        s.voted(cfg, who, project_key, milestone_key, approve).orderly(cfg),
{
    lemma_voted_consistent(s, cfg, who, project_key, milestone_key, approve);
    lemma_voted_undecided(s, cfg, who, project_key, milestone_key, approve);
    let id = round_id(RoundType::VotingRound, project_key, milestone_key);
    assert(s.rounds.contains_key(id));
    assert(round_in_order(s, id));
    lemma_ballot_tallied(s, id, who, approve);
    let round = s.round_after_vote(who, project_key, milestone_key, approve);
    let counted = State { rounds: s.rounds.insert(id, round), ..s };
    let after = s.voted(cfg, who, project_key, milestone_key, approve);
    lemma_percent_of_bounded(
        cfg.percent_required_for_vote_to_pass,
        s.projects[project_key].raised_funds,
    );
    assert forall|key: ProjectKey| #[trigger]
        after.projects.contains_key(key) implies counted.projects.contains_key(key)
        && after.projects[key].contributions == counted.projects[key].contributions by {
        if key != project_key {
            assert(s.projects.contains_key(key));
        }
    }
    lemma_tallied_shrinks(counted, after);
    lemma_contributions_kept(s.projects, after.projects);
}

/// Finalising the vote on a milestone keeps the engine orderly.
pub proof fn law_finalised_orderly(
    s: State,
    cfg: Config,
    who: AccountId,
    project_key: ProjectKey,
    milestone_key: MilestoneKey,
)
    requires
        s.orderly(cfg),
    ensures
        s.finalised(cfg, who, project_key, milestone_key).orderly(cfg),
{
    let id = round_id(RoundType::VotingRound, project_key, milestone_key);
    law_auto_finalised_orderly(
        s,
        cfg,
        who,
        project_key,
        milestone_key,
        s.rounds[id].vote,
        cfg.threshold(s.projects[project_key]) as u128,
    );
}

/// A withdrawal keeps the engine orderly.
pub proof fn law_withdrawn_orderly(s: State, cfg: Config, who: AccountId, project_key: ProjectKey)
    requires
        s.orderly(cfg),
        s.withdrawal(cfg, who, project_key).is_ok(),
    ensures
        s.withdrawn(who, project_key, s.withdrawal(cfg, who, project_key).unwrap()).orderly(cfg),
{
    lemma_withdrawn_consistent(s, cfg, who, project_key);
    lemma_withdrawn_undecided(s, cfg, who, project_key);
    let after = s.withdrawn(who, project_key, s.withdrawal(cfg, who, project_key).unwrap());
    assert forall|key: ProjectKey| #[trigger]
        after.projects.contains_key(key) implies s.projects.contains_key(key)
        && after.projects[key].contributions == s.projects[key].contributions by {
        if key != project_key {
            assert(s.projects.contains_key(key));
        }
    }
    lemma_tallied_shrinks(s, after);
    lemma_contributions_kept(s.projects, after.projects);
}

/// Raising a vote of no confidence keeps the engine orderly.
pub proof fn law_no_confidence_raised_orderly(
    s: State,
    cfg: Config,
    who: AccountId,
    project_key: ProjectKey,
)
    requires
        s.orderly(cfg),
        s.inv(cfg),
        s.no_confidence_outcome(cfg, who, project_key).is_ok(),
    ensures
        s.no_confidence_raised(cfg, who, project_key).orderly(cfg),
{
    lemma_no_confidence_raised_consistent(s, cfg, who, project_key);
    lemma_no_confidence_raised_undecided(s, cfg, who, project_key);
    let weight = s.projects[project_key].contribution_of(who).unwrap().value;
    let ballots = seq![(who, false)];
    let round = RoundView {
        round_type: RoundType::VoteOfNoConfidence,
        project_key,
        milestone_key: 0,
        expires_at: deadline(s.now, cfg.no_confidence_time_limit),
        vote: Vote { yay: 0, nay: weight, is_approved: false },
        ballots,
    };
    let contributions = s.projects[project_key].contributions;
    assert(ballots.drop_last() =~= Seq::<(AccountId, bool)>::empty());
    assert(ballots.last() == (who, false));
    assert(side_weight(ballots.drop_last(), contributions, true) == 0);
    assert(side_weight(ballots.drop_last(), contributions, false) == 0);
    assert(side_weight(ballots, contributions, true) == 0);
    assert(side_weight(ballots, contributions, false) == weight);
    lemma_round_opened_tallied(s, round);
    lemma_tallied_shrinks(s.round_opened(round), s.no_confidence_raised(cfg, who, project_key));
}

/// A vote in a vote of no confidence keeps the engine orderly.
pub proof fn law_no_confidence_voted_orderly(
    s: State,
    cfg: Config,
    who: AccountId,
    project_key: ProjectKey,
    is_yay: bool,
)
    requires
        s.orderly(cfg),
        s.no_confidence_vote_outcome(who, project_key).is_ok(),
    ensures
        s.no_confidence_voted(who, project_key, is_yay).orderly(cfg),
{
    lemma_no_confidence_voted_consistent(s, who, project_key, is_yay);
    lemma_no_confidence_voted_undecided(s, cfg, who, project_key, is_yay);
    let id = round_id(RoundType::VoteOfNoConfidence, project_key, 0);
    assert(s.rounds.contains_key(id));
    assert(round_in_order(s, id));
    lemma_ballot_tallied(s, id, who, is_yay);
    let weight = s.projects[project_key].contribution_of(who).unwrap().value;
    lemma_tallied_shrinks(
        State { rounds: s.rounds.insert(id, s.rounds[id].with_ballot(who, is_yay, weight)), ..s },
        s.no_confidence_voted(who, project_key, is_yay),
    );
}

/// Finalising a vote of no confidence keeps the engine orderly.
pub proof fn law_no_confidence_finalised_orderly(
    s: State,
    cfg: Config,
    who: AccountId,
    project_key: ProjectKey,
)
    requires
        s.orderly(cfg),
        s.projects.contains_key(project_key),
    ensures
        s.no_confidence_finalised(who, project_key).orderly(cfg),
{
    lemma_no_confidence_finalised_consistent(s, who, project_key);
    lemma_no_confidence_finalised_undecided(s, cfg, who, project_key);
    let after = s.no_confidence_finalised(who, project_key);
    assert forall|key: ProjectKey| #[trigger]
        after.projects.contains_key(key) implies s.projects.contains_key(key)
        && after.projects[key].contributions == s.projects[key].contributions by {
        if key != project_key {
            assert(s.projects.contains_key(key));
        }
    }
    lemma_tallied_shrinks(s, after);
    lemma_contributions_kept(s.projects, after.projects);
}

/// Being told of a completed dispute keeps the engine orderly.
pub proof fn law_dispute_completed_orderly(
    s: State,
    cfg: Config,
    project_key: ProjectKey,
    specifiers: Seq<MilestoneKey>,
    result: DisputeResult,
)
    requires
        s.orderly(cfg),
    ensures
        s.dispute_completed(project_key, specifiers, result).orderly(cfg),
{
    lemma_dispute_completed_consistent(s, project_key, specifiers, result);
    lemma_dispute_completed_undecided(s, cfg, project_key, specifiers, result);
    let after = s.dispute_completed(project_key, specifiers, result);
    assert forall|key: ProjectKey| #[trigger]
        after.projects.contains_key(key) implies s.projects.contains_key(key)
        && after.projects[key].contributions == s.projects[key].contributions by {
        if key != project_key {
            assert(s.projects.contains_key(key));
        }
    }
    lemma_tallied_shrinks(s, after);
    lemma_contributions_kept(s.projects, after.projects);
}

/// Raising a dispute keeps the engine orderly.
pub proof fn law_disputed_orderly(
    s: State,
    cfg: Config,
    who: AccountId,
    project_key: ProjectKey,
    milestones: Seq<MilestoneKey>,
)
    requires
        s.orderly(cfg),
    ensures
        s.disputed(who, project_key, milestones).orderly(cfg),
{
    lemma_orderly_frame(s, s.disputed(who, project_key, milestones), cfg);
}

/// A sweep leaves every tally the weight behind its ballots.
proof fn lemma_swept_tallied(s: State, ids: Seq<u128>)
    requires
        tallied(s),
    ensures
        tallied(s.swept(ids)),
    decreases ids.len(),
{
    if ids.len() > 0 {
        lemma_swept_tallied(s, ids.drop_last());
        let before = s.swept(ids.drop_last());
        if before.rounds.contains_key(ids.last()) {
            lemma_tallied_shrinks(before, before.round_closed(ids.last()));
        }
    }
}

/// The sweep of a block keeps the engine orderly, and leaves no round open
/// that closes at the block.
pub proof fn law_initialized_orderly(s: State, cfg: Config, block: BlockNumber)
    requires
        s.orderly(cfg),
    ensures
        s.initialized(block).orderly(cfg),
        forall|id: u128| #[trigger]
            s.initialized(block).rounds.contains_key(id) ==> s.initialized(
                block,
            ).rounds[id].expires_at != block,
{
    lemma_initialized_consistent(s, block);
    lemma_initialized_undecided(s, cfg, block);
    lemma_tallied_shrinks(s, s.drained(block));
    lemma_swept_tallied(s.drained(block), s.rounds_expiring[block]);
    law_sweep_leaves_projects_alone(s.drained(block), s.rounds_expiring[block]);
}

/// In an orderly engine the tally of an open round counts every contributor
/// who has voted once, with what they contributed, on the side of their last
/// vote, and both sides together never weigh more than the project has raised;
/// this for every project whose contributions sum up to an amount. And an open
/// vote on a milestone in which somebody has voted is short of the threshold on
/// both sides.
pub proof fn law_tallies_count_each_contributor_once(s: State, cfg: Config, id: u128)
    requires
        s.orderly(cfg),
        s.rounds.contains_key(id),
        s.projects.contains_key(s.rounds[id].project_key),
    ensures
        ({
            let round = s.rounds[id];
            let project = s.projects[round.project_key];
            &&& exact_total(project.contributions) <= u128::MAX ==> {
                &&& distinct_accounts(round.ballots)
                &&& round.vote.yay == side_weight(round.ballots, project.contributions, true)
                &&& round.vote.nay == side_weight(round.ballots, project.contributions, false)
                &&& round.vote.yay + round.vote.nay <= exact_total(project.contributions)
            }
            &&& round.round_type == RoundType::VotingRound && round.ballots.len() > 0
                ==> round.vote.yay < cfg.threshold(project) && round.vote.nay < cfg.threshold(
                project,
            )
        }),
{
    let round = s.rounds[id];
    let project = s.projects[round.project_key];
    assert(round_weighed(s, id));
    assert(round_undecided(s, cfg, id));
    if exact_total(project.contributions) <= u128::MAX {
        lemma_ballots_within_total(round.ballots, project.contributions);
    }
}

} // verus!
