//! Every operation of the project engine leads to a state that may come after
//! the state before it: within its limits, with nothing taken back from any
//! project, and orderly if the state before was.
use crate::disputes::DisputeResult;
use crate::proposals::invariants::{
    lemma_auto_finalised_inv, lemma_converted_inv, lemma_dispute_completed_inv, lemma_drained_inv,
    lemma_inv_frame, lemma_no_confidence_finalised_inv, lemma_no_confidence_raised_inv,
    lemma_round_closed_inv, lemma_submitted_inv, lemma_withdrawn_inv,
};
use crate::proposals::laws::{
    law_conversion_takes_nothing_back, law_decisions_take_nothing_back, law_hook_is_safe,
    law_lost_confidence_stops_withdrawals, law_no_double_withdrawal,
    law_sweep_leaves_projects_alone, law_votes_take_nothing_back, lemma_projects_kept,
};
use crate::proposals::model::{Config, State};
use crate::proposals::orderly::{
    law_auto_finalised_orderly, law_converted_orderly, law_dispute_completed_orderly,
    law_disputed_orderly, law_initialized_orderly, law_no_confidence_finalised_orderly,
    law_no_confidence_raised_orderly, law_no_confidence_voted_orderly, law_round_closed_orderly,
    law_submitted_orderly, law_voted_orderly, law_withdrawn_orderly, lemma_orderly_frame,
};
use crate::proposals::project::{Contribution, ProposedMilestone, RoundType, Vote};
use crate::proposals::round::round_id;
use crate::types::{
    AccountId, AgreementHash, Balance, BlockNumber, CurrencyId, FundingType, MilestoneKey,
    ProjectKey,
};
use vstd::prelude::*;

verus! {

impl State {
    /// Whether this state may come after `before`: it is within its limits,
    /// it takes nothing back from a project of `before`, and it is orderly if
    /// `before` was.
    pub open spec fn succeeds(self, before: State, cfg: Config) -> bool {
        &&& self.inv(cfg)
        &&& self.follows(before)
        &&& before.orderly(cfg) ==> self.orderly(cfg)
    }
}

/// A state may come after itself.
pub proof fn law_unchanged(s: State, cfg: Config)
    requires
        s.inv(cfg),
    ensures
        s.succeeds(s, cfg),
{
    lemma_projects_kept(s.projects);
}

/// The passing of time changes nothing but the block.
pub proof fn law_moved(s: State, cfg: Config, now: BlockNumber)
    requires
        s.inv(cfg),
    ensures
        (State { now, ..s }).succeeds(s, cfg),
{
    let after = State { now, ..s };
    lemma_projects_kept(s.projects);
    lemma_inv_frame(s, after, cfg);
    if s.orderly(cfg) {
        lemma_orderly_frame(s, after, cfg);
    }
}

/// The state after a project has been created may come after the state
/// before.
pub proof fn law_converted(
    s: State,
    cfg: Config,
    currency_id: CurrencyId,
    contributions: Seq<(AccountId, Contribution)>,
    brief_hash: AgreementHash,
    beneficiary: AccountId,
    milestones: Seq<ProposedMilestone>,
    funding_type: FundingType,
)
    requires
        s.inv(cfg),
        s.conversion_outcome(cfg, contributions, milestones).is_ok(),
    ensures
        s.converted(
            cfg,
            currency_id,
            contributions,
            brief_hash,
            beneficiary,
            milestones,
            funding_type,
        ).succeeds(s, cfg),
{
    lemma_converted_inv(
        s,
        cfg,
        currency_id,
        contributions,
        brief_hash,
        beneficiary,
        milestones,
        funding_type,
    );
    law_conversion_takes_nothing_back(
        s,
        cfg,
        currency_id,
        contributions,
        brief_hash,
        beneficiary,
        milestones,
        funding_type,
    );
    if s.orderly(cfg) {
        law_converted_orderly(
            s,
            cfg,
            currency_id,
            contributions,
            brief_hash,
            beneficiary,
            milestones,
            funding_type,
        );
    }
}

/// The state after a round has been closed may come after the state before.
pub proof fn law_round_closed(s: State, cfg: Config, id: u128)
    requires
        s.inv(cfg),
    ensures
        s.round_closed(id).succeeds(s, cfg),
{
    lemma_projects_kept(s.projects);
    lemma_round_closed_inv(s, cfg, id);
    if s.orderly(cfg) {
        law_round_closed_orderly(s, cfg, id);
    }
}

/// The state after a round has been decided on a tally may come after the
/// state before, whatever the tally.
pub proof fn law_decided(
    s: State,
    cfg: Config,
    who: AccountId,
    project_key: ProjectKey,
    milestone_key: MilestoneKey,
    vote: Vote,
    threshold: Balance,
)
    requires
        s.inv(cfg),
    ensures
        s.auto_finalised(who, project_key, milestone_key, vote, threshold).succeeds(s, cfg),
{
    lemma_auto_finalised_inv(s, cfg, who, project_key, milestone_key, vote, threshold);
    law_decisions_take_nothing_back(s, who, project_key, milestone_key, vote, threshold);
    if s.orderly(cfg) {
        law_auto_finalised_orderly(s, cfg, who, project_key, milestone_key, vote, threshold);
    }
}

/// The state after a milestone has been submitted may come after the state
/// before.
pub proof fn law_submitted(
    s: State,
    cfg: Config,
    who: AccountId,
    project_key: ProjectKey,
    milestone_key: MilestoneKey,
)
    requires
        s.inv(cfg),
        s.submit_outcome(cfg, who, project_key, milestone_key).is_ok(),
    ensures
        s.submitted(cfg, who, project_key, milestone_key).succeeds(s, cfg),
{
    lemma_projects_kept(s.projects);
    lemma_submitted_inv(s, cfg, who, project_key, milestone_key);
    if s.orderly(cfg) {
        law_submitted_orderly(s, cfg, who, project_key, milestone_key);
    }
}

/// The state after a vote on a milestone may come after the state before.
pub proof fn law_voted(
    s: State,
    cfg: Config,
    who: AccountId,
    project_key: ProjectKey,
    milestone_key: MilestoneKey,
    approve: bool,
)
    requires
        s.inv(cfg),
        s.vote_outcome(who, project_key, milestone_key).is_ok(),
    ensures
        s.voted(cfg, who, project_key, milestone_key, approve).succeeds(s, cfg),
{
    let id = round_id(RoundType::VotingRound, project_key, milestone_key);
    let round = s.round_after_vote(who, project_key, milestone_key, approve);
    let counted = State { rounds: s.rounds.insert(id, round), ..s };
    lemma_inv_frame(s, counted, cfg);
    lemma_auto_finalised_inv(
        counted,
        cfg,
        who,
        project_key,
        milestone_key,
        round.vote,
        cfg.threshold(s.projects[project_key]) as u128,
    );
    law_votes_take_nothing_back(s, cfg, who, project_key, milestone_key, approve);
    if s.orderly(cfg) {
        law_voted_orderly(s, cfg, who, project_key, milestone_key, approve);
    }
}

/// The state after a withdrawal may come after the state before.
pub proof fn law_withdrawn(s: State, cfg: Config, who: AccountId, project_key: ProjectKey)
    requires
        s.inv(cfg),
        s.withdrawal(cfg, who, project_key).is_ok(),
    ensures
        s.withdrawn(who, project_key, s.withdrawal(cfg, who, project_key).unwrap()).succeeds(
            s,
            cfg,
        ),
{
    lemma_withdrawn_inv(s, cfg, who, project_key);
    law_no_double_withdrawal(s, cfg, who, who, project_key);
    if s.orderly(cfg) {
        law_withdrawn_orderly(s, cfg, who, project_key);
    }
}

/// The state after a vote of no confidence has been raised may come after the
/// state before.
pub proof fn law_no_confidence_raised(
    s: State,
    cfg: Config,
    who: AccountId,
    project_key: ProjectKey,
)
    requires
        s.inv(cfg),
        s.no_confidence_outcome(cfg, who, project_key).is_ok(),
    ensures
        s.no_confidence_raised(cfg, who, project_key).succeeds(s, cfg),
{
    lemma_projects_kept(s.projects);
    lemma_no_confidence_raised_inv(s, cfg, who, project_key);
    if s.orderly(cfg) {
        law_no_confidence_raised_orderly(s, cfg, who, project_key);
    }
}

/// The state after a vote in a vote of no confidence may come after the state
/// before.
pub proof fn law_no_confidence_voted(
    s: State,
    cfg: Config,
    who: AccountId,
    project_key: ProjectKey,
    is_yay: bool,
)
    requires
        s.inv(cfg),
        s.no_confidence_vote_outcome(who, project_key).is_ok(),
    ensures
        s.no_confidence_voted(who, project_key, is_yay).succeeds(s, cfg),
{
    lemma_projects_kept(s.projects);
    lemma_inv_frame(s, s.no_confidence_voted(who, project_key, is_yay), cfg);
    if s.orderly(cfg) {
        law_no_confidence_voted_orderly(s, cfg, who, project_key, is_yay);
    }
}

/// The state after a vote of no confidence has passed may come after the
/// state before.
pub proof fn law_no_confidence_finalised(
    s: State,
    cfg: Config,
    who: AccountId,
    project_key: ProjectKey,
    majority_required: u8,
)
    requires
        s.inv(cfg),
        s.no_confidence_finalise_outcome(who, project_key, majority_required).is_ok(),
    ensures
        s.no_confidence_finalised(who, project_key).succeeds(s, cfg),
{
    lemma_no_confidence_finalised_inv(s, cfg, who, project_key);
    law_lost_confidence_stops_withdrawals(s, cfg, who, who, project_key, majority_required);
    if s.orderly(cfg) {
        law_no_confidence_finalised_orderly(s, cfg, who, project_key);
    }
}

/// The state after the engine has been told of a completed dispute may come
/// after the state before.
pub proof fn law_dispute_completed(
    s: State,
    cfg: Config,
    project_key: ProjectKey,
    specifiers: Seq<MilestoneKey>,
    result: DisputeResult,
)
    requires
        s.inv(cfg),
    ensures
        s.dispute_completed(project_key, specifiers, result).succeeds(s, cfg),
{
    lemma_dispute_completed_inv(s, cfg, project_key, specifiers, result);
    law_hook_is_safe(s, cfg, project_key, specifiers, result);
    if s.orderly(cfg) {
        law_dispute_completed_orderly(s, cfg, project_key, specifiers, result);
    }
}

/// The state after a dispute has been raised may come after the state before.
pub proof fn law_disputed(
    s: State,
    cfg: Config,
    who: AccountId,
    project_key: ProjectKey,
    milestones: Seq<MilestoneKey>,
)
    requires
        s.inv(cfg),
    ensures
        s.disputed(who, project_key, milestones).succeeds(s, cfg),
{
    lemma_projects_kept(s.projects);
    lemma_inv_frame(s, s.disputed(who, project_key, milestones), cfg);
    if s.orderly(cfg) {
        law_disputed_orderly(s, cfg, who, project_key, milestones);
    }
}

/// A sweep keeps the state within its limits.
proof fn lemma_swept_inv(s: State, cfg: Config, ids: Seq<u128>)
    requires
        s.inv(cfg),
    ensures
        s.swept(ids).inv(cfg),
    decreases ids.len(),
{
    if ids.len() > 0 {
        lemma_swept_inv(s, cfg, ids.drop_last());
        let before = s.swept(ids.drop_last());
        if before.rounds.contains_key(ids.last()) {
            lemma_round_closed_inv(before, cfg, ids.last());
        }
    }
}

/// The state after a block has begun may come after the state before.
pub proof fn law_initialized(s: State, cfg: Config, block: BlockNumber)
    requires
        s.inv(cfg),
    ensures
        s.initialized(block).succeeds(s, cfg),
{
    lemma_projects_kept(s.projects);
    lemma_drained_inv(s, cfg, block);
    lemma_swept_inv(s.drained(block), cfg, s.rounds_expiring[block]);
    law_sweep_leaves_projects_alone(s.drained(block), s.rounds_expiring[block]);
    if s.orderly(cfg) {
        law_initialized_orderly(s, cfg, block);
    }
}

} // verus!
