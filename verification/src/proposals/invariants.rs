//! Every operation of the project engine keeps the state within its limits.
use crate::disputes::DisputeResult;
use crate::expiry::{lemma_bounded_drain, lemma_bounded_push, lemma_bounded_remove};
use crate::proposals::model::{counted, deadline, sized, solvent, Config, State};
use crate::proposals::project::{
    lemma_unlocked_sum_nonnegative, Contribution, ProjectView, ProposedMilestone, RoundType, Vote,
};
use crate::proposals::round::round_id;
use crate::types::{
    AccountId, AgreementHash, Balance, BlockNumber, CurrencyId, FundingType, MilestoneKey,
    ProjectKey,
};
use vstd::prelude::*;

verus! {

/// Putting a solvent project among solvent ones keeps them solvent.
pub proof fn lemma_solvent_insert(
    projects: Map<ProjectKey, ProjectView>,
    key: ProjectKey,
    project: ProjectView,
)
    requires
        solvent(projects),
        project.wf(),
    ensures
        solvent(projects.insert(key, project)),
{
    let after = projects.insert(key, project);
    assert forall|k: ProjectKey| #[trigger] after.contains_key(k) implies after[k].wf() by {
        if k != key {
            assert(projects.contains_key(k));
        }
    }
}

/// Putting a project under a key within the count keeps the keys within the
/// count.
pub proof fn lemma_counted_insert(
    projects: Map<ProjectKey, ProjectView>,
    count: u32,
    key: ProjectKey,
    project: ProjectView,
)
    requires
        counted(projects, count),
        key <= count,
    ensures
        counted(projects.insert(key, project), count),
{
    let after = projects.insert(key, project);
    assert forall|k: ProjectKey| #[trigger] after.contains_key(k) implies k <= count by {
        if k != key {
            assert(projects.contains_key(k));
        }
    }
}

/// Taking a project away leaves the keys within the count.
pub proof fn lemma_counted_remove(
    projects: Map<ProjectKey, ProjectView>,
    count: u32,
    key: ProjectKey,
)
    requires
        counted(projects, count),
    ensures
        counted(projects.remove(key), count),
{
    let after = projects.remove(key);
    assert forall|k: ProjectKey| #[trigger] after.contains_key(k) implies k <= count by {
        assert(projects.contains_key(k));
    }
}

/// Putting a project within the limits among others that are keeps them all
/// within the limits.
pub proof fn lemma_sized_insert(
    projects: Map<ProjectKey, ProjectView>,
    cfg: Config,
    key: ProjectKey,
    project: ProjectView,
)
    requires
        sized(projects, cfg),
        project.within(cfg),
    ensures
        sized(projects.insert(key, project), cfg),
{
    let after = projects.insert(key, project);
    assert forall|k: ProjectKey| #[trigger] after.contains_key(k) implies after[k].within(cfg) by {
        if k != key {
            assert(projects.contains_key(k));
        }
    }
}

/// Taking a project away leaves the others within the limits.
pub proof fn lemma_sized_remove(projects: Map<ProjectKey, ProjectView>, cfg: Config, key: ProjectKey)
    requires
        sized(projects, cfg),
    ensures
        sized(projects.remove(key), cfg),
{
    let after = projects.remove(key);
    assert forall|k: ProjectKey| #[trigger] after.contains_key(k) implies after[k].within(cfg) by {
        assert(projects.contains_key(k));
    }
}

/// Taking a project away leaves the others solvent.
pub proof fn lemma_solvent_remove(projects: Map<ProjectKey, ProjectView>, key: ProjectKey)
    requires
        solvent(projects),
    ensures
        solvent(projects.remove(key)),
{
    let after = projects.remove(key);
    assert forall|k: ProjectKey| #[trigger] after.contains_key(k) implies after[k].wf() by {
        assert(projects.contains_key(k));
    }
}

/// A state with the projects and buckets of one that is within its limits is
/// within its limits.
pub proof fn lemma_inv_frame(before: State, after: State, cfg: Config)
    requires
        before.inv(cfg),
        after.projects == before.projects,
        after.rounds_expiring == before.rounds_expiring,
        after.project_count == before.project_count,
    ensures
        after.inv(cfg),
{
}

/// Closing a round keeps the invariant.
pub proof fn lemma_round_closed_inv(s: State, cfg: Config, id: u128)
    requires
        s.inv(cfg),
    ensures
        s.round_closed(id).inv(cfg),
{
    lemma_bounded_remove(s.rounds_expiring, cfg.bucket_capacity(), s.rounds[id].expires_at, id);
}

/// Creating a project keeps the invariant.
pub proof fn lemma_converted_inv(
    s: State,
    cfg: Config,
    currency_id: CurrencyId,
    contributions: Seq<(AccountId, Contribution)>,
    brief_hash: AgreementHash,
    beneficiary: AccountId,
    milestones: Seq<ProposedMilestone>,
    funding_type: FundingType,
)
    requires
        s.inv(cfg),
        s.conversion_outcome(cfg, contributions, milestones).is_ok(),
    ensures
        s.converted(
            cfg,
            currency_id,
            contributions,
            brief_hash,
            beneficiary,
            milestones,
            funding_type,
        ).inv(cfg),
{
    let after = s.converted(
        cfg,
        currency_id,
        contributions,
        brief_hash,
        beneficiary,
        milestones,
        funding_type,
    );
    let key = (s.project_count + 1) as u32;
    lemma_solvent_insert(s.projects, key, after.projects[key]);
    lemma_sized_insert(s.projects, cfg, key, after.projects[key]);
    assert forall|k: ProjectKey| #[trigger] after.projects.contains_key(k) implies k
        <= after.project_count by {
        if k != key {
            assert(s.projects.contains_key(k));
        }
    }
}

/// Submitting a milestone keeps the invariant.
pub proof fn lemma_submitted_inv(
    s: State,
    cfg: Config,
    who: AccountId,
    project_key: ProjectKey,
    milestone_key: MilestoneKey,
)
    requires
        s.inv(cfg),
        s.submit_outcome(cfg, who, project_key, milestone_key).is_ok(),
    ensures
        s.submitted(cfg, who, project_key, milestone_key).inv(cfg),
{
    lemma_bounded_push(
        s.rounds_expiring,
        cfg.bucket_capacity(),
        deadline(s.now, cfg.milestone_voting_window),
        round_id(RoundType::VotingRound, project_key, milestone_key),
    );
}

/// Deciding a round keeps the invariant.
pub proof fn lemma_auto_finalised_inv(
    s: State,
    cfg: Config,
    who: AccountId,
    project_key: ProjectKey,
    milestone_key: MilestoneKey,
    vote: Vote,
    threshold: Balance,
)
    requires
        s.inv(cfg),
    ensures
        s.auto_finalised(who, project_key, milestone_key, vote, threshold).inv(cfg),
{
    let id = round_id(RoundType::VotingRound, project_key, milestone_key);
    lemma_bounded_remove(s.rounds_expiring, cfg.bucket_capacity(), s.rounds[id].expires_at, id);
    if s.projects.contains_key(project_key) {
        lemma_solvent_insert(
            s.projects,
            project_key,
            s.projects[project_key].with_approved(milestone_key),
        );
        lemma_counted_insert(
            s.projects,
            s.project_count,
            project_key,
            s.projects[project_key].with_approved(milestone_key),
        );
        lemma_sized_insert(
            s.projects,
            cfg,
            project_key,
            s.projects[project_key].with_approved(milestone_key),
        );
    }
}

/// A withdrawal keeps the invariant.
pub proof fn lemma_withdrawn_inv(s: State, cfg: Config, who: AccountId, project_key: ProjectKey)
    requires
        s.inv(cfg),
        s.withdrawal(cfg, who, project_key).is_ok(),
    ensures
        s.withdrawn(who, project_key, s.withdrawal(cfg, who, project_key).unwrap()).inv(cfg),
{
    let plan = s.withdrawal(cfg, who, project_key).unwrap();
    let after = s.withdrawn(who, project_key, plan);
    let project = s.projects[project_key];
    assert(s.projects.contains_key(project_key));
    lemma_unlocked_sum_nonnegative(project.milestones, project.raised_funds);
    if plan.completes {
        lemma_solvent_remove(s.projects, project_key);
        lemma_counted_remove(s.projects, s.project_count, project_key);
        lemma_sized_remove(s.projects, cfg, project_key);
    } else {
        lemma_solvent_insert(s.projects, project_key, after.projects[project_key]);
        lemma_counted_insert(
            s.projects,
            s.project_count,
            project_key,
            after.projects[project_key],
        );
        lemma_sized_insert(s.projects, cfg, project_key, after.projects[project_key]);
    }
}

/// Raising a vote of no confidence keeps the invariant.
pub proof fn lemma_no_confidence_raised_inv(
    s: State,
    cfg: Config,
    who: AccountId,
    project_key: ProjectKey,
)
    requires
        s.inv(cfg),
        s.no_confidence_outcome(cfg, who, project_key).is_ok(),
    ensures
        s.no_confidence_raised(cfg, who, project_key).inv(cfg),
{
    lemma_bounded_push(
        s.rounds_expiring,
        cfg.bucket_capacity(),
        deadline(s.now, cfg.no_confidence_time_limit),
        round_id(RoundType::VoteOfNoConfidence, project_key, 0),
    );
}

/// Finalising a vote of no confidence keeps the invariant.
pub proof fn lemma_no_confidence_finalised_inv(
    s: State,
    cfg: Config,
    who: AccountId,
    project_key: ProjectKey,
)
    requires
        s.inv(cfg),
        s.projects.contains_key(project_key),
    ensures
        s.no_confidence_finalised(who, project_key).inv(cfg),
{
    let id = round_id(RoundType::VoteOfNoConfidence, project_key, 0);
    lemma_bounded_remove(s.rounds_expiring, cfg.bucket_capacity(), s.rounds[id].expires_at, id);
    lemma_solvent_insert(
        s.projects,
        project_key,
        ProjectView { cancelled: true, ..s.projects[project_key] },
    );
    lemma_counted_insert(
        s.projects,
        s.project_count,
        project_key,
        ProjectView { cancelled: true, ..s.projects[project_key] },
    );
    lemma_sized_insert(
        s.projects,
        cfg,
        project_key,
        ProjectView { cancelled: true, ..s.projects[project_key] },
    );
}

/// Being told of a completed dispute keeps the invariant.
pub proof fn lemma_dispute_completed_inv(
    s: State,
    cfg: Config,
    project_key: ProjectKey,
    specifiers: Seq<MilestoneKey>,
    result: DisputeResult,
)
    requires
        s.inv(cfg),
    ensures
        s.dispute_completed(project_key, specifiers, result).inv(cfg),
{
    if s.projects.contains_key(project_key) {
        lemma_solvent_insert(
            s.projects,
            project_key,
            s.projects[project_key].with_refundable(specifiers),
        );
        lemma_counted_insert(
            s.projects,
            s.project_count,
            project_key,
            s.projects[project_key].with_refundable(specifiers),
        );
        lemma_sized_insert(
            s.projects,
            cfg,
            project_key,
            s.projects[project_key].with_refundable(specifiers),
        );
    }
}

/// Emptying a bucket keeps the invariant.
pub proof fn lemma_drained_inv(s: State, cfg: Config, block: BlockNumber)
    requires
        s.inv(cfg),
    ensures
        s.drained(block).inv(cfg),
{
    lemma_bounded_drain(s.rounds_expiring, cfg.bucket_capacity(), block);
}

} // verus!
