//! The state of the project engine as contracts see it, and what each
//! operation makes of it.
use crate::accounts::{project_account, PalletIdBytes};
use crate::bucket::BUCKET_CEILING;
use crate::disputes::{DisputeResult, Error as DisputeError};
use crate::expiry::bounded;
use crate::ledger::{LedgerCall, LedgerError};
use crate::per_account::distinct_accounts;
use crate::percent::percent_of;
use crate::proposals::project::{
    has_approved, has_milestone, milestones_from, sat_add, sat_sub, total_contributed, Contribution,
    ProjectView, ProposedMilestone, RoundType, Vote,
};
use crate::proposals::round::{round_id, RoundView};
use crate::types::{
    AccountId, AgreementHash, Balance, BlockNumber, CurrencyId, FundingType, MilestoneKey,
    ProjectKey,
};
use vstd::prelude::*;

verus! {

/// Why the project engine refused an operation.
#[derive(Clone, Copy, Debug, PartialEq, Eq, Structural)]
pub enum Error {
    /// No project has this key.
    ProjectDoesNotExist,
    /// Only the initiator of the project may do this.
    UserIsNotInitiator,
    /// The project has no milestone with this key.
    MilestoneDoesNotExist,
    /// The milestone has been approved already.
    MilestoneAlreadyApproved,
    /// An index or a counter is at its limit.
    Overflow,
    /// A round of this kind is open already.
    RoundStarted,
    /// No voting round is open for the milestone.
    VotingRoundNotStarted,
    /// The milestone, or the project, is under dispute.
    MilestonesAlreadyInDispute,
    /// Only contributors to the project may do this.
    OnlyContributorsCanVote,
    /// The project has been cancelled.
    ProjectWithdrawn,
    /// The votes for the milestone do not reach the threshold.
    MilestoneVotingNotComplete,
    /// Nothing is unlocked that has not been withdrawn.
    NoAvailableFundsToWithdraw,
    /// The initiator has completed as many projects as the engine records.
    TooManyProjects,
    /// More milestones than a project may have.
    TooManyMilestones,
    /// More contributors than a project may have.
    TooManyContributions,
    /// An argument contradicts itself.
    InvalidParam,
    /// No vote of no confidence is open for the project.
    ProjectNotInRound,
    /// The votes do not reach the threshold.
    VoteThresholdNotMet,
    /// The request did not come from an origin that may make it.
    BadOrigin,
    /// The ledger refused.
    Ledger(LedgerError),
    /// The dispute engine refused.
    Dispute(DisputeError),
}

/// What the project engine reports.
#[derive(Clone, Copy, Debug, PartialEq, Eq)]
pub enum Event {
    /// A project has been created: its initiator, agreement, key, raised
    /// funds, currency and custody account.
    ProjectCreated(AccountId, AgreementHash, ProjectKey, Balance, CurrencyId, AccountId),
    /// The initiator has submitted a milestone to the vote.
    MilestoneSubmitted(AccountId, ProjectKey, MilestoneKey),
    /// A voting round has opened for a project.
    VotingRoundCreated(ProjectKey),
    /// A contributor has voted on a milestone.
    VoteSubmitted(AccountId, ProjectKey, MilestoneKey, bool, BlockNumber),
    /// A milestone has been approved.
    MilestoneApproved(AccountId, ProjectKey, MilestoneKey, BlockNumber),
    /// A milestone has been rejected.
    MilestoneRejected(ProjectKey, MilestoneKey),
    /// The initiator has withdrawn funds: the amount paid out, after the fee.
    ProjectFundsWithdrawn(AccountId, ProjectKey, Balance, CurrencyId),
    /// A vote of no confidence has been raised.
    NoConfidenceRoundCreated(AccountId, ProjectKey),
    /// A contributor has voted in a vote of no confidence.
    NoConfidenceRoundVotedUpon(AccountId, ProjectKey),
    /// A vote of no confidence has passed.
    NoConfidenceRoundFinalised(AccountId, ProjectKey),
    /// A dispute has been raised on milestones of a project.
    DisputeRaised(AccountId, ProjectKey),
}

/// The rules under which a project engine runs.
#[derive(Clone, Copy, Debug)]
pub struct Config {
    /// The identifier from which the custody accounts are derived.
    pub pallet_id: PalletIdBytes,
    /// The number of blocks for which a milestone can be voted on.
    pub milestone_voting_window: BlockNumber,
    /// The number of blocks for which a vote of no confidence is open.
    pub no_confidence_time_limit: BlockNumber,
    /// The share of the raised funds that a vote needs to pass, in percent.
    pub percent_required_for_vote_to_pass: u8,
    /// The largest number of contributors that a project can have.
    pub maximum_contributors_per_project: u32,
    /// The largest number of milestones that a project can have.
    pub max_milestones_per_project: u32,
    /// The largest number of completed projects recorded for one initiator.
    pub max_projects_per_account: u32,
    /// The deposit reserved from the initiator while the project is stored.
    pub project_storage_deposit: Balance,
    /// The fee taken from every withdrawal, in percent.
    pub imbue_fee: u8,
    /// The account that receives the fees.
    pub imbue_fee_account: AccountId,
    /// The largest number of rounds that may close at one block.
    pub expiring_project_rounds_per_block: u32,
}

/// What a withdrawal moves, from where and to whom.
#[derive(Clone, Copy, Debug, PartialEq, Eq)]
pub struct Withdrawal {
    /// The currency of the funds.
    pub currency_id: CurrencyId,
    /// The custody account of the project, which pays.
    pub custody: AccountId,
    /// The account that receives the fee.
    pub fee_account: AccountId,
    /// The initiator, who receives the rest.
    pub initiator: AccountId,
    /// The fee.
    pub fee: Balance,
    /// What the initiator receives: the amount withdrawn less the fee.
    pub payout: Balance,
    /// The amount withdrawn.
    pub amount: Balance,
    /// Whether the project has then paid out all that was raised.
    pub completes: bool,
}

impl Withdrawal {
    /// What a withdrawal asks of the ledger: the fee for the fee account,
    /// then the rest for the initiator, both from the custody account; and, if
    /// the project has then paid out everything, the storage deposit of the
    /// initiator back.
    pub open spec fn calls(self, cfg: Config) -> Seq<LedgerCall> {
        let transfers = seq![
            LedgerCall::Transfer {
                currency: self.currency_id,
                from: self.custody,
                to: self.fee_account,
                amount: self.fee,
            },
            LedgerCall::Transfer {
                currency: self.currency_id,
                from: self.custody,
                to: self.initiator,
                amount: self.payout,
            },
        ];
        if self.completes {
            transfers.push(
                LedgerCall::Unreserve {
                    currency: CurrencyId::Native,
                    who: self.initiator,
                    amount: cfg.project_storage_deposit,
                },
            )
        } else {
            transfers
        }
    }
}

/// What the funding of a project asks of the ledger: for each contribution,
/// in order, to free what the contributor has set aside and to move it into
/// the custody account. A project funded by a treasury asks nothing.
pub open spec fn funding_calls(
    funding_type: FundingType,
    contributions: Seq<(AccountId, Contribution)>,
    custody: AccountId,
    currency_id: CurrencyId,
) -> Seq<LedgerCall>
    decreases contributions.len(),
{
    if funding_type is Treasury || contributions.len() == 0 {
        Seq::empty()
    } else {
        funding_calls(funding_type, contributions.drop_last(), custody, currency_id).push(
            LedgerCall::Unreserve {
                currency: currency_id,
                who: contributions.last().0,
                amount: contributions.last().1.value,
            },
        ).push(
            LedgerCall::Transfer {
                currency: currency_id,
                from: contributions.last().0,
                to: custody,
                amount: contributions.last().1.value,
            },
        )
    }
}

/// The project engine as contracts see it.
pub struct State {
    /// The projects that have not paid out everything yet.
    pub projects: Map<ProjectKey, ProjectView>,
    /// The number of projects created so far, which is the key of the latest.
    pub project_count: u32,
    /// The open rounds, each under its entry.
    pub rounds: Map<u128, RoundView>,
    /// For each block, the entries of the rounds that close at it.
    pub rounds_expiring: Map<BlockNumber, Seq<u128>>,
    /// For each project under dispute, the disputed milestones.
    pub in_dispute: Map<ProjectKey, Seq<MilestoneKey>>,
    /// The projects that have paid out everything, with their initiators.
    pub completed: Seq<(AccountId, ProjectKey)>,
    /// The current block.
    pub now: BlockNumber,
    /// Everything reported so far, oldest first.
    pub events: Seq<Event>,
}

/// The block that lies `limit` blocks after `from`, or the last block there is.
pub open spec fn deadline(from: BlockNumber, limit: BlockNumber) -> BlockNumber {
    if from + limit > u32::MAX {
        u32::MAX
    } else {
        (from + limit) as u32
    }
}

/// No project has paid out more than it raised.
pub open spec fn solvent(projects: Map<ProjectKey, ProjectView>) -> bool {
    forall|key: ProjectKey| #[trigger] projects.contains_key(key) ==> projects[key].wf()
}

/// No project has a key beyond the number of projects created.
pub open spec fn counted(projects: Map<ProjectKey, ProjectView>, count: u32) -> bool {
    forall|key: ProjectKey| #[trigger] projects.contains_key(key) ==> key <= count
}

/// No project has more milestones or more contributors than a project may
/// have.
pub open spec fn sized(projects: Map<ProjectKey, ProjectView>, cfg: Config) -> bool {
    forall|key: ProjectKey| #[trigger]
        projects.contains_key(key) ==> projects[key].within(cfg)
}

/// The number of projects that `who` has completed.
pub open spec fn completed_by(completed: Seq<(AccountId, ProjectKey)>, who: AccountId) -> nat
    decreases completed.len(),
{
    if completed.len() == 0 {
        0
    } else {
        completed_by(completed.drop_last(), who) + if completed.last().0 == who {
            1nat
        } else {
            0nat
        }
    }
}

impl ProjectView {
    /// Whether the project has no more milestones and no more contributors
    /// than a project may have.
    pub open spec fn within(self, cfg: Config) -> bool {
        &&& self.milestones.len() <= cfg.max_milestones_per_project
        &&& self.contributions.len() <= cfg.maximum_contributors_per_project
    }
}

impl Config {
    /// The number of rounds that may close at one block.
    pub open spec fn bucket_capacity(self) -> nat {
        if self.expiring_project_rounds_per_block <= BUCKET_CEILING {
            self.expiring_project_rounds_per_block as nat
        } else {
            BUCKET_CEILING as nat
        }
    }

    /// The weight of votes that decides a round of the project `project`.
    pub open spec fn threshold(self, project: ProjectView) -> int {
        percent_of(self.percent_required_for_vote_to_pass, project.raised_funds)
    }
}

impl State {
    /// The state of an engine that has seen nothing yet.
    pub open spec fn empty() -> State {
        State {
            projects: Map::empty(),
            project_count: 0,
            rounds: Map::empty(),
            rounds_expiring: Map::total(|block: BlockNumber| Seq::<u128>::empty()),
            in_dispute: Map::empty(),
            completed: Seq::empty(),
            now: 0,
            events: Seq::empty(),
        }
    }

    /// Every block has a bucket within the capacity, and no project has paid
    /// out more than it raised, a key beyond the number of projects created, or
    /// more milestones or contributors than a project may have.
    pub open spec fn inv(self, cfg: Config) -> bool {
        &&& bounded(self.rounds_expiring, cfg.bucket_capacity())
        &&& solvent(self.projects)
        &&& counted(self.projects, self.project_count)
        &&& sized(self.projects, cfg)
    }

    /// This state with the round under `id` closed: the round is gone from the
    /// store and its entry from the index.
    pub open spec fn round_closed(self, id: u128) -> State {
        let expires_at = self.rounds[id].expires_at;
        State {
            rounds: self.rounds.remove(id),
            rounds_expiring: self.rounds_expiring.insert(
                expires_at,
                self.rounds_expiring[expires_at].remove_value(id),
            ),
            ..self
        }
    }

    /// This state with `round` opened: the round is in the store and its entry
    /// in the index.
    pub open spec fn round_opened(self, round: RoundView) -> State {
        let id = round_id(round.round_type, round.project_key, round.milestone_key);
        State {
            rounds: self.rounds.insert(id, round),
            rounds_expiring: self.rounds_expiring.insert(
                round.expires_at,
                self.rounds_expiring[round.expires_at].push(id),
            ),
            ..self
        }
    }

    /// This state with `event` reported.
    pub open spec fn reported(self, event: Event) -> State {
        State { events: self.events.push(event), ..self }
    }

    /// Whether a project can be created from these contributions and
    /// milestones, and if not, why not.
    pub open spec fn conversion_outcome(
        self,
        cfg: Config,
        contributions: Seq<(AccountId, Contribution)>,
        milestones: Seq<ProposedMilestone>,
    ) -> Result<(), Error> {
        if self.project_count == u32::MAX {
            Err(Error::Overflow)
        } else if contributions.len() > cfg.maximum_contributors_per_project {
            Err(Error::TooManyContributions)
        } else if !distinct_accounts(contributions) {
            Err(Error::InvalidParam)
        } else if milestones.len() > cfg.max_milestones_per_project {
            Err(Error::TooManyMilestones)
        } else {
            Ok(())
        }
    }

    /// The state after a project has been created: it has the next key, the
    /// sum of its contributions as raised funds, nothing withdrawn, and its
    /// milestones keyed from 0 and unapproved.
    pub open spec fn converted(
        self,
        cfg: Config,
        currency_id: CurrencyId,
        contributions: Seq<(AccountId, Contribution)>,
        brief_hash: AgreementHash,
        beneficiary: AccountId,
        milestones: Seq<ProposedMilestone>,
        funding_type: FundingType,
    ) -> State {
        let key = (self.project_count + 1) as u32;
        let raised = total_contributed(contributions);
        let project = ProjectView {
            agreement_hash: brief_hash,
            milestones: milestones_from(milestones, key),
            contributions,
            currency_id,
            withdrawn_funds: 0,
            raised_funds: raised,
            initiator: beneficiary,
            created_on: self.now,
            cancelled: false,
            funding_type,
        };
        State {
            projects: self.projects.insert(key, project),
            project_count: key,
            events: self.events.push(
                Event::ProjectCreated(
                    beneficiary,
                    brief_hash,
                    key,
                    raised,
                    currency_id,
                    project_account(cfg.pallet_id, key),
                ),
            ),
            ..self
        }
    }

    /// What the creation of a project asks of the ledger: to set the storage
    /// deposit of the initiator aside, and then to fund the project.
    pub open spec fn conversion_calls(
        self,
        cfg: Config,
        currency_id: CurrencyId,
        contributions: Seq<(AccountId, Contribution)>,
        beneficiary: AccountId,
        funding_type: FundingType,
    ) -> Seq<LedgerCall> {
        seq![
            LedgerCall::Reserve {
                currency: CurrencyId::Native,
                who: beneficiary,
                amount: cfg.project_storage_deposit,
            },
        ] + funding_calls(
            funding_type,
            contributions,
            project_account(cfg.pallet_id, (self.project_count + 1) as u32),
            currency_id,
        )
    }

    /// Whether `who` can submit the milestone to the vote, and if not, why
    /// not.
    pub open spec fn submit_outcome(
        self,
        cfg: Config,
        who: AccountId,
        project_key: ProjectKey,
        milestone_key: MilestoneKey,
    ) -> Result<(), Error> {
        if !self.projects.contains_key(project_key) {
            Err(Error::ProjectDoesNotExist)
        } else if self.projects[project_key].initiator != who {
            Err(Error::UserIsNotInitiator)
        } else if !has_milestone(self.projects[project_key].milestones, milestone_key) {
            Err(Error::MilestoneDoesNotExist)
        } else if has_approved(self.projects[project_key].milestones, milestone_key) {
            Err(Error::MilestoneAlreadyApproved)
        } else if self.rounds.contains_key(
            round_id(RoundType::VotingRound, project_key, milestone_key),
        ) {
            Err(Error::RoundStarted)
        } else if self.rounds_expiring[deadline(self.now, cfg.milestone_voting_window)].len()
            >= cfg.bucket_capacity() {
            Err(Error::Overflow)
        } else {
            Ok(())
        }
    }

    /// The state after the milestone has been submitted: a round without votes
    /// is open for it until the voting window has passed.
    pub open spec fn submitted(
        self,
        cfg: Config,
        who: AccountId,
        project_key: ProjectKey,
        milestone_key: MilestoneKey,
    ) -> State {
        let round = RoundView {
            round_type: RoundType::VotingRound,
            project_key,
            milestone_key,
            expires_at: deadline(self.now, cfg.milestone_voting_window),
            vote: Vote { yay: 0, nay: 0, is_approved: false },
            ballots: Seq::empty(),
        };
        self.round_opened(round).reported(
            Event::MilestoneSubmitted(who, project_key, milestone_key),
        ).reported(Event::VotingRoundCreated(project_key))
    }

    /// Whether the milestone is under dispute.
    pub open spec fn is_disputed(
        self,
        project_key: ProjectKey,
        milestone_key: MilestoneKey,
    ) -> bool {
        self.in_dispute.contains_key(project_key) && self.in_dispute[project_key].contains(
            milestone_key,
        )
    }

    /// Whether `who` can vote on the milestone, and if not, why not.
    pub open spec fn vote_outcome(
        self,
        who: AccountId,
        project_key: ProjectKey,
        milestone_key: MilestoneKey,
    ) -> Result<(), Error> {
        if !self.projects.contains_key(project_key) {
            Err(Error::ProjectDoesNotExist)
        } else if !self.rounds.contains_key(
            round_id(RoundType::VotingRound, project_key, milestone_key),
        ) {
            Err(Error::VotingRoundNotStarted)
        } else if self.is_disputed(project_key, milestone_key) {
            Err(Error::MilestonesAlreadyInDispute)
        } else if self.projects[project_key].contribution_of(who).is_none() {
            Err(Error::OnlyContributorsCanVote)
        } else {
            Ok(())
        }
    }

    /// The round of the milestone after `who` has voted in it with the weight
    /// of their contribution.
    pub open spec fn round_after_vote(
        self,
        who: AccountId,
        project_key: ProjectKey,
        milestone_key: MilestoneKey,
        approve: bool,
    ) -> RoundView {
        let id = round_id(RoundType::VotingRound, project_key, milestone_key);
        let weight = self.projects[project_key].contribution_of(who).unwrap().value;
        self.rounds[id].with_ballot(who, approve, weight)
    }

    /// This state with the round of the milestone decided, if `vote` decides
    /// it: once the weight for the milestone reaches `threshold`, the milestone
    /// is approved and the round closed; once the weight against it does, the
    /// round is closed and the milestone stays as it was.
    pub open spec fn auto_finalised(
        self,
        who: AccountId,
        project_key: ProjectKey,
        milestone_key: MilestoneKey,
        vote: Vote,
        threshold: Balance,
    ) -> State {
        let id = round_id(RoundType::VotingRound, project_key, milestone_key);
        if vote.yay >= threshold {
            let closed = self.round_closed(id);
            State {
                projects: if self.projects.contains_key(project_key) {
                    self.projects.insert(
                        project_key,
                        self.projects[project_key].with_approved(milestone_key),
                    )
                } else {
                    self.projects
                },
                ..closed
            }.reported(Event::MilestoneApproved(who, project_key, milestone_key, self.now))
        } else if vote.nay >= threshold {
            self.round_closed(id).reported(Event::MilestoneRejected(project_key, milestone_key))
        } else {
            self
        }
    }

    /// The state after `who` has voted on the milestone: the vote is counted
    /// with the weight of the contribution of `who`, and the round is decided
    /// if the tally then reaches the threshold on either side.
    pub open spec fn voted(
        self,
        cfg: Config,
        who: AccountId,
        project_key: ProjectKey,
        milestone_key: MilestoneKey,
        approve: bool,
    ) -> State {
        let id = round_id(RoundType::VotingRound, project_key, milestone_key);
        let round = self.round_after_vote(who, project_key, milestone_key, approve);
        let counted = State { rounds: self.rounds.insert(id, round), ..self };
        counted.auto_finalised(
            who,
            project_key,
            milestone_key,
            round.vote,
            cfg.threshold(self.projects[project_key]) as u128,
        ).reported(Event::VoteSubmitted(who, project_key, milestone_key, approve, self.now))
    }

    /// Whether `who` can finalise the vote on the milestone, and if not, why
    /// not: only the initiator can, and only once the weight for the milestone
    /// reaches the threshold.
    pub open spec fn finalise_outcome(
        self,
        cfg: Config,
        who: AccountId,
        project_key: ProjectKey,
        milestone_key: MilestoneKey,
    ) -> Result<(), Error> {
        let id = round_id(RoundType::VotingRound, project_key, milestone_key);
        if !self.projects.contains_key(project_key) {
            Err(Error::ProjectDoesNotExist)
        } else if self.projects[project_key].initiator != who {
            Err(Error::UserIsNotInitiator)
        } else if !self.rounds.contains_key(id) {
            Err(Error::VotingRoundNotStarted)
        } else if self.rounds[id].vote.yay < cfg.threshold(self.projects[project_key]) {
            Err(Error::MilestoneVotingNotComplete)
        } else {
            Ok(())
        }
    }

    /// The state after the initiator has finalised the vote on the milestone:
    /// the milestone is approved and the round closed.
    pub open spec fn finalised(
        self,
        cfg: Config,
        who: AccountId,
        project_key: ProjectKey,
        milestone_key: MilestoneKey,
    ) -> State {
        let id = round_id(RoundType::VotingRound, project_key, milestone_key);
        self.auto_finalised(
            who,
            project_key,
            milestone_key,
            self.rounds[id].vote,
            cfg.threshold(self.projects[project_key]) as u128,
        )
    }

    /// What `who` can withdraw from the project, or why nothing.
    pub open spec fn withdrawal(
        self,
        cfg: Config,
        who: AccountId,
        project_key: ProjectKey,
    ) -> Result<Withdrawal, Error> {
        if !self.projects.contains_key(project_key) {
            Err(Error::ProjectDoesNotExist)
        } else {
            let project = self.projects[project_key];
            let amount = project.withdrawable();
            let fee = percent_of(cfg.imbue_fee, amount) as u128;
            let completes = sat_add(project.withdrawn_funds, amount) == project.raised_funds;
            if project.cancelled {
                Err(Error::ProjectWithdrawn)
            } else if who != project.initiator {
                Err(Error::UserIsNotInitiator)
            } else if amount == 0 {
                Err(Error::NoAvailableFundsToWithdraw)
            } else if completes && completed_by(self.completed, project.initiator)
                >= cfg.max_projects_per_account {
                Err(Error::TooManyProjects)
            } else {
                Ok(
                    Withdrawal {
                        currency_id: project.currency_id,
                        custody: project_account(cfg.pallet_id, project_key),
                        fee_account: cfg.imbue_fee_account,
                        initiator: project.initiator,
                        fee,
                        payout: sat_sub(amount, fee),
                        amount,
                        completes,
                    },
                )
            }
        }
    }

    /// The state after the withdrawal `plan` from the project has been paid:
    /// the amount is added to what was withdrawn, and a project that has then
    /// paid out everything is removed and recorded as completed.
    pub open spec fn withdrawn(
        self,
        who: AccountId,
        project_key: ProjectKey,
        plan: Withdrawal,
    ) -> State {
        let project = self.projects[project_key];
        let paid = ProjectView {
            withdrawn_funds: sat_add(project.withdrawn_funds, plan.amount),
            ..project
        };
        let settled = if plan.completes {
            State {
                projects: self.projects.remove(project_key),
                completed: self.completed.push((project.initiator, project_key)),
                ..self
            }
        } else {
            State { projects: self.projects.insert(project_key, paid), ..self }
        };
        settled.reported(
            Event::ProjectFundsWithdrawn(who, project_key, plan.payout, plan.currency_id),
        )
    }

    /// Whether `who` can raise a vote of no confidence in the project, and if
    /// not, why not.
    pub open spec fn no_confidence_outcome(
        self,
        cfg: Config,
        who: AccountId,
        project_key: ProjectKey,
    ) -> Result<(), Error> {
        if !self.projects.contains_key(project_key) {
            Err(Error::ProjectDoesNotExist)
        } else if self.projects[project_key].contribution_of(who).is_none() {
            Err(Error::OnlyContributorsCanVote)
        } else if self.rounds.contains_key(
            round_id(RoundType::VoteOfNoConfidence, project_key, 0),
        ) {
            Err(Error::RoundStarted)
        } else if self.rounds_expiring[deadline(self.now, cfg.no_confidence_time_limit)].len()
            >= cfg.bucket_capacity() {
            Err(Error::Overflow)
        } else {
            Ok(())
        }
    }

    /// The state after `who` has raised a vote of no confidence: the round is
    /// open, with the vote of `who` counted against the initiator.
    pub open spec fn no_confidence_raised(
        self,
        cfg: Config,
        who: AccountId,
        project_key: ProjectKey,
    ) -> State {
        let weight = self.projects[project_key].contribution_of(who).unwrap().value;
        let round = RoundView {
            round_type: RoundType::VoteOfNoConfidence,
            project_key,
            milestone_key: 0,
            expires_at: deadline(self.now, cfg.no_confidence_time_limit),
            vote: Vote { yay: 0, nay: weight, is_approved: false },
            ballots: seq![(who, false)],
        };
        self.round_opened(round).reported(Event::NoConfidenceRoundCreated(who, project_key))
    }

    /// Whether `who` can take part in the vote of no confidence in the
    /// project, and if not, why not.
    pub open spec fn no_confidence_vote_outcome(
        self,
        who: AccountId,
        project_key: ProjectKey,
    ) -> Result<(), Error> {
        if !self.projects.contains_key(project_key) {
            Err(Error::ProjectDoesNotExist)
        } else if !self.rounds.contains_key(
            round_id(RoundType::VoteOfNoConfidence, project_key, 0),
        ) {
            Err(Error::ProjectNotInRound)
        } else if self.projects[project_key].contribution_of(who).is_none() {
            Err(Error::OnlyContributorsCanVote)
        } else {
            Ok(())
        }
    }

    /// The state after `who` has voted in the vote of no confidence; a vote
    /// for is a vote for the project to continue.
    pub open spec fn no_confidence_voted(
        self,
        who: AccountId,
        project_key: ProjectKey,
        is_yay: bool,
    ) -> State {
        let id = round_id(RoundType::VoteOfNoConfidence, project_key, 0);
        let weight = self.projects[project_key].contribution_of(who).unwrap().value;
        State {
            rounds: self.rounds.insert(id, self.rounds[id].with_ballot(who, is_yay, weight)),
            ..self
        }.reported(Event::NoConfidenceRoundVotedUpon(who, project_key))
    }

    /// Whether `who` can finalise the vote of no confidence in the project,
    /// and if not, why not: the weight against the initiator has to reach
    /// `majority_required` percent of the raised funds.
    pub open spec fn no_confidence_finalise_outcome(
        self,
        who: AccountId,
        project_key: ProjectKey,
        majority_required: u8,
    ) -> Result<(), Error> {
        match self.no_confidence_vote_outcome(who, project_key) {
            Err(e) => Err(e),
            Ok(_) => {
                let id = round_id(RoundType::VoteOfNoConfidence, project_key, 0);
                if self.rounds[id].vote.nay >= percent_of(
                    majority_required,
                    self.projects[project_key].raised_funds,
                ) {
                    Ok(())
                } else {
                    Err(Error::VoteThresholdNotMet)
                }
            },
        }
    }

    /// The state after the vote of no confidence has been finalised: the round
    /// is closed, the project is cancelled, so that nothing more can be
    /// withdrawn from it, and the passing of the vote is reported.
    pub open spec fn no_confidence_finalised(
        self,
        who: AccountId,
        project_key: ProjectKey,
    ) -> State {
        let closed = self.round_closed(round_id(RoundType::VoteOfNoConfidence, project_key, 0));
        State {
            projects: self.projects.insert(
                project_key,
                ProjectView { cancelled: true, ..self.projects[project_key] },
            ),
            ..closed
        }.reported(Event::NoConfidenceRoundFinalised(who, project_key))
    }

    /// The state after the engine has been told that the dispute on the
    /// milestones `specifiers` of the project has ended in `result`: the
    /// project is no longer under dispute; if the dispute was upheld and the
    /// project still exists, the milestones are eligible for a refund; in every
    /// other case nothing else changes.
    pub open spec fn dispute_completed(
        self,
        project_key: ProjectKey,
        specifiers: Seq<MilestoneKey>,
        result: DisputeResult,
    ) -> State {
        let cleared = State { in_dispute: self.in_dispute.remove(project_key), ..self };
        if result == DisputeResult::Success && self.projects.contains_key(project_key) {
            State {
                projects: self.projects.insert(
                    project_key,
                    self.projects[project_key].with_refundable(specifiers),
                ),
                ..cleared
            }
        } else {
            cleared
        }
    }

    /// Whether `who` can raise a dispute on the milestones `milestones` of the
    /// project, and if not, why not.
    pub open spec fn dispute_outcome(
        self,
        who: AccountId,
        project_key: ProjectKey,
        milestones: Seq<MilestoneKey>,
    ) -> Result<(), Error> {
        if !self.projects.contains_key(project_key) {
            Err(Error::ProjectDoesNotExist)
        } else if self.projects[project_key].contribution_of(who).is_none() {
            Err(Error::OnlyContributorsCanVote)
        } else if exists|i: int|
            0 <= i < milestones.len() && !has_milestone(
                self.projects[project_key].milestones,
                #[trigger] milestones[i],
            ) {
            Err(Error::MilestoneDoesNotExist)
        } else if self.in_dispute.contains_key(project_key) {
            Err(Error::MilestonesAlreadyInDispute)
        } else {
            Ok(())
        }
    }

    /// The state after a dispute on the milestones has been raised.
    pub open spec fn disputed(
        self,
        who: AccountId,
        project_key: ProjectKey,
        milestones: Seq<MilestoneKey>,
    ) -> State {
        State { in_dispute: self.in_dispute.insert(project_key, milestones), ..self }.reported(
            Event::DisputeRaised(who, project_key),
        )
    }

    /// The state after the entries `ids` have been swept, oldest first: each
    /// entry whose round is still open closes it; any other is ignored.
    pub open spec fn swept(self, ids: Seq<u128>) -> State
        decreases ids.len(),
    {
        if ids.len() == 0 {
            self
        } else {
            let before = self.swept(ids.drop_last());
            let id = ids.last();
            if before.rounds.contains_key(id) {
                before.round_closed(id)
            } else {
                before
            }
        }
    }

    /// This state with the bucket of `block` emptied.
    pub open spec fn drained(self, block: BlockNumber) -> State {
        State { rounds_expiring: self.rounds_expiring.insert(block, Seq::empty()), ..self }
    }

    /// The state after the block `block` has begun: its bucket is emptied and
    /// the rounds that its entries name are closed.
    pub open spec fn initialized(self, block: BlockNumber) -> State {
        self.drained(block).swept(self.rounds_expiring[block])
    }
}

} // verus!
