//! What holds of the project engine whatever sequence of operations it sees.
use crate::disputes::DisputeResult;
use crate::per_account::{lemma_position_of, position_of, recorded};
use crate::percent::{as_percent, capped, lemma_percent_of_bounded, lemma_percent_of_subadditive};
use crate::proposals::consistency::{
    lemma_approved_has_approved, lemma_approved_has_milestone, lemma_refundable_keeps,
};
use crate::proposals::model::{solvent, Config, Error, State, Withdrawal};
use crate::proposals::project::{
    has_approved, lemma_unlocked_sum_nonnegative, total_contributed, unlocked_sum, Contribution,
    Milestone, ProjectView, ProposedMilestone, RoundType, Vote,
};
use crate::proposals::round::round_id;
use crate::types::{
    AccountId, AgreementHash, Balance, CurrencyId, FundingType, MilestoneKey, ProjectKey,
};
use vstd::prelude::*;

verus! {

impl Milestone {
    /// Whether this milestone is `before` at a later time: the same milestone,
    /// still approved if it was, still eligible for a refund if it was.
    pub open spec fn follows(self, before: Milestone) -> bool {
        &&& self.project_key == before.project_key
        &&& self.milestone_key == before.milestone_key
        &&& self.percentage_to_unlock == before.percentage_to_unlock
        &&& self.is_refunded == before.is_refunded
        &&& before.is_approved ==> self.is_approved
        &&& before.can_refund ==> self.can_refund
    }
}

impl ProjectView {
    /// Whether this project is `before` at a later time: the same agreement,
    /// initiator, currency, funding and contributions; the same raised, and no
    /// less withdrawn, but never more than was raised; still cancelled if it
    /// was; and each of its milestones the milestone of `before` at a later
    /// time.
    pub open spec fn follows(self, before: ProjectView) -> bool {
        &&& self.agreement_hash == before.agreement_hash
        &&& self.contributions == before.contributions
        &&& self.currency_id == before.currency_id
        &&& self.initiator == before.initiator
        &&& self.created_on == before.created_on
        &&& self.funding_type == before.funding_type
        &&& self.raised_funds == before.raised_funds
        &&& self.withdrawn_funds >= before.withdrawn_funds
        &&& self.withdrawn_funds <= self.raised_funds
        &&& before.cancelled ==> self.cancelled
        &&& self.milestones.len() == before.milestones.len()
        &&& forall|i: int|
            0 <= i < self.milestones.len() ==> (#[trigger] self.milestones[i]).follows(
                before.milestones[i],
            )
    }
}

/// A milestone that was approved in a project is approved in every project
/// that follows it.
pub proof fn lemma_approval_stays(before: ProjectView, after: ProjectView, key: MilestoneKey)
    requires
        after.follows(before),
        has_approved(before.milestones, key),
    ensures
        has_approved(after.milestones, key),
{
    let i = choose|i: int|
        0 <= i < before.milestones.len() && (#[trigger] before.milestones[i]).milestone_key == key
            && before.milestones[i].is_approved;
    assert(after.milestones[i].follows(before.milestones[i]));
}

/// Whether every project of `before` that still exists among `after` is the
/// project of `before` at a later time.
pub open spec fn kept(
    after: Map<ProjectKey, ProjectView>,
    before: Map<ProjectKey, ProjectView>,
) -> bool {
    forall|key: ProjectKey| #[trigger]
        after.contains_key(key) && before.contains_key(key) ==> after[key].follows(before[key])
}

impl State {
    /// Whether every project of `before` that still exists in this state is
    /// the project of `before` at a later time: no operation takes back what a
    /// project has raised, what it has paid out, or the approval of a
    /// milestone.
    pub open spec fn follows(self, before: State) -> bool {
        kept(self.projects, before.projects)
    }
}

/// Projects that have not changed are themselves at a later time.
pub proof fn lemma_projects_kept(projects: Map<ProjectKey, ProjectView>)
    requires
        solvent(projects),
    ensures
        kept(projects, projects),
{
}

/// Creating a project takes nothing back from the others.
pub proof fn law_conversion_takes_nothing_back(
    s: State,
    cfg: Config,
    currency_id: CurrencyId,
    contributions: Seq<(AccountId, Contribution)>,
    brief_hash: AgreementHash,
    beneficiary: AccountId,
    milestones: Seq<ProposedMilestone>,
    funding_type: FundingType,
)
    requires
        s.inv(cfg),
        s.project_count < u32::MAX,
    ensures
        s.converted(
            cfg,
            currency_id,
            contributions,
            brief_hash,
            beneficiary,
            milestones,
            funding_type,
        ).follows(s),
{
    let after = s.converted(
        cfg,
        currency_id,
        contributions,
        brief_hash,
        beneficiary,
        milestones,
        funding_type,
    );
    assert forall|key: ProjectKey| #[trigger]
        after.projects.contains_key(key) && s.projects.contains_key(
            key,
        ) implies after.projects[key].follows(s.projects[key]) by {
        assert(key <= s.project_count);
    }
}

/// Once the weight of the votes for a milestone reaches the required share of
/// the raised funds, the milestone, which was not approved before, is approved
/// and its round closed, so that no further vote on it is taken. Once the weight
/// against it does, the round is closed and the milestone stays unapproved.
/// Until either happens the round stays open and no milestone changes.
pub proof fn law_threshold_convergence(
    s: State,
    cfg: Config,
    who: AccountId,
    again: AccountId,
    project_key: ProjectKey,
    milestone_key: MilestoneKey,
    approve: bool,
)
    requires
        s.consistent(),
        s.vote_outcome(who, project_key, milestone_key).is_ok(),
    ensures
        ({
            let id = round_id(RoundType::VotingRound, project_key, milestone_key);
            let tally = s.round_after_vote(who, project_key, milestone_key, approve).vote;
            let threshold = cfg.threshold(s.projects[project_key]);
            let after = s.voted(cfg, who, project_key, milestone_key, approve);
            &&& after.projects.contains_key(project_key)
            &&& !has_approved(s.projects[project_key].milestones, milestone_key)
            &&& tally.yay >= threshold ==> {
                &&& has_approved(after.projects[project_key].milestones, milestone_key)
                &&& !after.rounds.contains_key(id)
                &&& after.vote_outcome(again, project_key, milestone_key) == Err::<(), Error>(
                    Error::VotingRoundNotStarted,
                )
                &&& after.submit_outcome(cfg, again, project_key, milestone_key).is_err()
            }
            &&& tally.yay < threshold && tally.nay >= threshold ==> {
                &&& after.projects == s.projects
                &&& !after.rounds.contains_key(id)
                &&& after.vote_outcome(again, project_key, milestone_key) == Err::<(), Error>(
                    Error::VotingRoundNotStarted,
                )
            }
            &&& tally.yay < threshold && tally.nay < threshold ==> {
                &&& after.projects == s.projects
                &&& after.rounds.contains_key(id)
                &&& after.rounds[id].vote == tally
            }
        }),
{
    let id = round_id(RoundType::VotingRound, project_key, milestone_key);
    let project = s.projects[project_key];
    assert(s.rounds.contains_key(id));
    lemma_percent_of_bounded(cfg.percent_required_for_vote_to_pass, project.raised_funds);
    lemma_approved_has_approved(project.milestones, milestone_key, milestone_key);
    lemma_approved_has_milestone(project.milestones, milestone_key, milestone_key);
}

/// A withdrawal pays out something, adds exactly that to what was withdrawn,
/// and never takes the project past what it raised. A project that has paid
/// out all that it raised is removed, and every further withdrawal from it is
/// refused because the project does not exist.
pub proof fn law_no_double_withdrawal(
    s: State,
    cfg: Config,
    who: AccountId,
    again: AccountId,
    project_key: ProjectKey,
)
    requires
        s.inv(cfg),
        s.withdrawal(cfg, who, project_key).is_ok(),
    ensures
        ({
            let plan = s.withdrawal(cfg, who, project_key).unwrap();
            let before = s.projects[project_key];
            let after = s.withdrawn(who, project_key, plan);
            &&& plan.amount > 0
            &&& plan.fee + plan.payout == plan.amount
            &&& before.withdrawn_funds + plan.amount <= before.raised_funds
            &&& plan.completes == (before.withdrawn_funds + plan.amount == before.raised_funds)
            &&& plan.completes ==> !after.projects.contains_key(project_key) && after.withdrawal(
                cfg,
                again,
                project_key,
            ) == Err::<Withdrawal, Error>(Error::ProjectDoesNotExist)
            &&& !plan.completes ==> after.projects.contains_key(project_key)
                && after.projects[project_key].withdrawn_funds == before.withdrawn_funds
                + plan.amount && after.projects[project_key].follows(before)
            &&& after.follows(s)
        }),
{
    let plan = s.withdrawal(cfg, who, project_key).unwrap();
    let before = s.projects[project_key];
    let after = s.withdrawn(who, project_key, plan);
    assert(s.projects.contains_key(project_key));
    lemma_unlocked_sum_nonnegative(before.milestones, before.raised_funds);
    lemma_percent_of_bounded(cfg.imbue_fee, plan.amount);
    assert forall|key: ProjectKey| #[trigger]
        after.projects.contains_key(key) && s.projects.contains_key(
            key,
        ) implies after.projects[key].follows(s.projects[key]) by {
        assert(s.projects.contains_key(key));
    }
}

/// Once nothing is left to withdraw, a withdrawal is refused and changes
/// nothing: the same approved milestones never pay out twice.
pub proof fn law_nothing_left_to_withdraw(
    s: State,
    cfg: Config,
    who: AccountId,
    project_key: ProjectKey,
)
    requires
        s.withdrawal(cfg, who, project_key).is_ok(),
        !s.withdrawal(cfg, who, project_key).unwrap().completes,
        s.inv(cfg),
    ensures
        s.withdrawn(who, project_key, s.withdrawal(cfg, who, project_key).unwrap()).withdrawal(
            cfg,
            who,
            project_key,
        ) == Err::<Withdrawal, Error>(Error::NoAvailableFundsToWithdraw),
{
    let before = s.projects[project_key];
    assert(s.projects.contains_key(project_key));
    lemma_unlocked_sum_nonnegative(before.milestones, before.raised_funds);
}

/// Deciding a round takes nothing back, whatever the tally: every project has
/// raised and withdrawn what it had, and every milestone that was approved is
/// approved.
pub proof fn law_decisions_take_nothing_back(
    s: State,
    who: AccountId,
    project_key: ProjectKey,
    milestone_key: MilestoneKey,
    vote: Vote,
    threshold: Balance,
)
    requires
        solvent(s.projects),
    ensures
        s.auto_finalised(who, project_key, milestone_key, vote, threshold).follows(s),
{
    let after = s.auto_finalised(who, project_key, milestone_key, vote, threshold);
    assert forall|key: ProjectKey| #[trigger]
        after.projects.contains_key(key) && s.projects.contains_key(
            key,
        ) implies after.projects[key].follows(s.projects[key]) by {
    }
}

/// A vote on a milestone, and the finalising of one by the initiator, take
/// nothing back: every project has raised and withdrawn what it had, and every
/// milestone that was approved is approved.
pub proof fn law_votes_take_nothing_back(
    s: State,
    cfg: Config,
    who: AccountId,
    project_key: ProjectKey,
    milestone_key: MilestoneKey,
    approve: bool,
)
    requires
        s.inv(cfg),
    ensures
        s.voted(cfg, who, project_key, milestone_key, approve).follows(s),
        s.finalised(cfg, who, project_key, milestone_key).follows(s),
{
    let id = round_id(RoundType::VotingRound, project_key, milestone_key);
    let threshold = cfg.threshold(s.projects[project_key]) as u128;
    let round = s.round_after_vote(who, project_key, milestone_key, approve);
    let counted = State { rounds: s.rounds.insert(id, round), ..s };
    law_decisions_take_nothing_back(
        counted,
        who,
        project_key,
        milestone_key,
        round.vote,
        threshold,
    );
    law_decisions_take_nothing_back(
        s,
        who,
        project_key,
        milestone_key,
        s.rounds[id].vote,
        threshold,
    );
    let decided = counted.auto_finalised(who, project_key, milestone_key, round.vote, threshold);
    let after = s.voted(cfg, who, project_key, milestone_key, approve);
    assert(after.projects == decided.projects);
}

/// Telling the engine of a completed dispute never fails and takes nothing
/// back. For a project that no longer exists it changes no project at all; for
/// a dispute that was dismissed likewise; in both cases the project merely
/// ceases to be under dispute.
pub proof fn law_hook_is_safe(
    s: State,
    cfg: Config,
    project_key: ProjectKey,
    specifiers: Seq<MilestoneKey>,
    result: DisputeResult,
)
    requires
        s.inv(cfg),
    ensures
        ({
            let after = s.dispute_completed(project_key, specifiers, result);
            &&& after.follows(s)
            &&& !after.in_dispute.contains_key(project_key)
            &&& (!s.projects.contains_key(project_key) || result == DisputeResult::Failure)
                ==> after == (State { in_dispute: s.in_dispute.remove(project_key), ..s })
            &&& after.rounds == s.rounds
            &&& after.events == s.events
        }),
{
    let after = s.dispute_completed(project_key, specifiers, result);
    assert forall|key: ProjectKey| #[trigger]
        after.projects.contains_key(key) && s.projects.contains_key(
            key,
        ) implies after.projects[key].follows(s.projects[key]) by {
        assert(s.projects.contains_key(key));
    }
}

/// A dispute that is upheld makes exactly the disputed milestones of the
/// project eligible for a refund, and approves and pays nothing.
pub proof fn law_upheld_dispute_marks_milestones(
    s: State,
    project_key: ProjectKey,
    specifiers: Seq<MilestoneKey>,
    at: int,
)
    requires
        s.projects.contains_key(project_key),
        0 <= at < s.projects[project_key].milestones.len(),
    ensures
        ({
            let before = s.projects[project_key];
            let after = s.dispute_completed(
                project_key,
                specifiers,
                DisputeResult::Success,
            ).projects[project_key];
            &&& after.milestones.len() == before.milestones.len()
            &&& after.milestones[at].can_refund == (before.milestones[at].can_refund
                || specifiers.contains(before.milestones[at].milestone_key))
            &&& after.milestones[at].is_approved == before.milestones[at].is_approved
            &&& after.withdrawn_funds == before.withdrawn_funds
        }),
{
}

/// The share of the raised funds that the approved milestones unlock, in
/// percent.
pub open spec fn approved_percent(milestones: Seq<Milestone>) -> int
    decreases milestones.len(),
{
    if milestones.len() == 0 {
        0
    } else {
        approved_percent(milestones.drop_last()) + if milestones.last().is_approved {
            capped(as_percent(milestones.last().percentage_to_unlock))
        } else {
            0
        }
    }
}

/// The shares that the approved milestones unlock, each rounded down, never
/// add up to more than their summed percentages of the raised funds.
pub proof fn lemma_unlocked_sum_bounded(milestones: Seq<Milestone>, raised: Balance)
    ensures
        0 <= approved_percent(milestones),
        unlocked_sum(milestones, raised) <= (approved_percent(milestones) * raised) / 100,
    decreases milestones.len(),
{
    if milestones.len() > 0 {
        let front = milestones.drop_last();
        lemma_unlocked_sum_bounded(front, raised);
        let last = if milestones.last().is_approved {
            capped(as_percent(milestones.last().percentage_to_unlock))
        } else {
            0
        };
        lemma_percent_of_subadditive(approved_percent(front), last, raised);
        assert((0 * raised) / 100 == 0) by (nonlinear_arith);
    } else {
        assert((0 * raised) / 100 == 0) by (nonlinear_arith);
    }
}

/// While the approved milestones stand for no more than the whole of the
/// raised funds, what is unlocked is exactly the sum of their shares, each
/// rounded down.
pub proof fn law_unlocked_is_the_sum_of_shares(project: ProjectView)
    requires
        approved_percent(project.milestones) <= 100,
    ensures
        project.unlocked() == unlocked_sum(project.milestones, project.raised_funds),
{
    let percent = approved_percent(project.milestones);
    let raised = project.raised_funds as int;
    lemma_unlocked_sum_bounded(project.milestones, project.raised_funds);
    lemma_unlocked_sum_nonnegative(project.milestones, project.raised_funds);
    assert(percent * raised <= 100 * raised) by (nonlinear_arith)
        requires
            0 <= percent <= 100,
            0 <= raised,
    ;
}

/// Opening and voting in rounds of no confidence, raising disputes and
/// submitting milestones change no project.
pub proof fn law_rounds_leave_projects_alone(
    s: State,
    cfg: Config,
    who: AccountId,
    project_key: ProjectKey,
    milestone_key: MilestoneKey,
    milestones: Seq<MilestoneKey>,
    is_yay: bool,
)
    ensures
        s.submitted(cfg, who, project_key, milestone_key).projects == s.projects,
        s.no_confidence_raised(cfg, who, project_key).projects == s.projects,
        s.no_confidence_voted(who, project_key, is_yay).projects == s.projects,
        s.disputed(who, project_key, milestones).projects == s.projects,
{
}

/// The sweep of a block changes no project, whatever rounds it closes.
pub proof fn law_sweep_leaves_projects_alone(s: State, ids: Seq<u128>)
    ensures
        s.swept(ids).projects == s.projects,
        s.swept(ids).events == s.events,
    decreases ids.len(),
{
    if ids.len() > 0 {
        law_sweep_leaves_projects_alone(s, ids.drop_last());
    }
}

/// Creating a project leaves every other project as it was, and gives the new
/// one the sum of its contributions as raised funds and nothing withdrawn.
pub proof fn law_new_projects_start_from_nothing(
    s: State,
    cfg: Config,
    currency_id: CurrencyId,
    contributions: Seq<(AccountId, Contribution)>,
    brief_hash: AgreementHash,
    beneficiary: AccountId,
    milestones: Seq<ProposedMilestone>,
    funding_type: FundingType,
    other: ProjectKey,
)
    requires
        s.conversion_outcome(cfg, contributions, milestones).is_ok(),
        other != s.project_count + 1,
    ensures
        ({
            let after = s.converted(
                cfg,
                currency_id,
                contributions,
                brief_hash,
                beneficiary,
                milestones,
                funding_type,
            );
            let key = (s.project_count + 1) as u32;
            &&& after.projects.contains_key(key)
            &&& after.projects[key].withdrawn_funds == 0
            &&& after.projects[key].raised_funds == total_contributed(contributions)
            &&& after.projects[key].milestones.len() == milestones.len()
            &&& forall|i: int|
                0 <= i < milestones.len() ==> {
                    &&& !(#[trigger] after.projects[key].milestones[i]).is_approved
                    &&& after.projects[key].milestones[i].milestone_key == i
                }
            &&& after.projects.contains_key(other) == s.projects.contains_key(other)
            &&& s.projects.contains_key(other) ==> after.projects[other] == s.projects[other]
        }),
{
}

/// A vote of no confidence that passes cancels the project and takes nothing
/// else from it: it has raised and withdrawn what it had, its milestones are as
/// they were, and every withdrawal from it is refused from then on.
pub proof fn law_lost_confidence_stops_withdrawals(
    s: State,
    cfg: Config,
    who: AccountId,
    again: AccountId,
    project_key: ProjectKey,
    majority_required: u8,
)
    requires
        solvent(s.projects),
        s.no_confidence_finalise_outcome(who, project_key, majority_required).is_ok(),
    ensures
        ({
            let after = s.no_confidence_finalised(who, project_key);
            &&& after.follows(s)
            &&& after.projects.contains_key(project_key)
            &&& after.projects[project_key] == (ProjectView {
                cancelled: true,
                ..s.projects[project_key]
            })
            &&& !after.rounds.contains_key(round_id(RoundType::VoteOfNoConfidence, project_key, 0))
            &&& after.withdrawal(cfg, again, project_key) == Err::<
                Withdrawal,
                Error,
            >(Error::ProjectWithdrawn)
        }),
{
    let after = s.no_confidence_finalised(who, project_key);
    assert forall|key: ProjectKey| #[trigger]
        after.projects.contains_key(key) && s.projects.contains_key(
            key,
        ) implies after.projects[key].follows(s.projects[key]) by {
    }
}

/// A contributor who votes again the same way is not counted again, and one
/// who changes sides moves their weight from one side to the other: while the
/// round stays open, the tally after the second vote is the tally after the
/// first, or that tally with the weight taken from the one side and added to
/// the other.
pub proof fn law_votes_are_not_counted_twice(
    s: State,
    cfg: Config,
    who: AccountId,
    project_key: ProjectKey,
    milestone_key: MilestoneKey,
    first: bool,
    second: bool,
)
    requires
        s.vote_outcome(who, project_key, milestone_key).is_ok(),
        s.voted(cfg, who, project_key, milestone_key, first).rounds.contains_key(
            round_id(RoundType::VotingRound, project_key, milestone_key),
        ),
    ensures
        ({
            let id = round_id(RoundType::VotingRound, project_key, milestone_key);
            let weight = s.projects[project_key].contribution_of(who).unwrap().value;
            let after = s.voted(cfg, who, project_key, milestone_key, first);
            let tally = after.rounds[id].vote;
            let again = after.round_after_vote(who, project_key, milestone_key, second);
            &&& after.vote_outcome(who, project_key, milestone_key).is_ok()
            &&& again.vote == (if second == first {
                tally
            } else {
                tally.minus(first, weight).plus(second, weight)
            })
            &&& again.ballots.len() == after.rounds[id].ballots.len()
        }),
{
    let id = round_id(RoundType::VotingRound, project_key, milestone_key);
    let project = s.projects[project_key];
    let ballots = s.rounds[id].ballots;
    lemma_percent_of_bounded(cfg.percent_required_for_vote_to_pass, project.raised_funds);
    lemma_position_of(ballots, who);
    let recorded_once = recorded(ballots, who, first);
    lemma_position_of(recorded_once, who);
    match position_of(ballots, who) {
        Some(i) => {
            assert(recorded_once[i] == (who, first));
            assert forall|j: int| 0 <= j < i implies (#[trigger] recorded_once[j]).0 != who by {
                assert(recorded_once[j] == ballots[j]);
            }
        },
        None => {
            assert(recorded_once[ballots.len() as int] == (who, first));
            assert forall|j: int| 0 <= j < ballots.len() implies (#[trigger] recorded_once[j]).0
                != who by {
                assert(recorded_once[j] == ballots[j]);
            }
        },
    }
}

} // verus!
