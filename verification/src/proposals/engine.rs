//! The project engine: the store of projects and rounds, and the operations
//! on it.
use crate::accounts::{derive_project_account, project_account};
use crate::disputes::{DisputeHooks, DisputeKey, DisputeRaiser, DisputeResult};
use crate::expiry::ExpiryIndex;
use crate::ledger::{
    asked, lemma_asked_first, lemma_asked_in_a_row, Journal, Ledger, LedgerCall, LedgerError,
};
use crate::per_account::all_distinct;
use crate::percent::mul_percent;
use crate::proposals::invariants::{lemma_drained_inv, lemma_inv_frame};
use crate::proposals::model::{
    completed_by, funding_calls, Config, Error, Event, State, Withdrawal,
};
use crate::proposals::project::{
    contains_key, has_milestone, milestones_from, total_contributed, Contribution, Milestone,
    Project, ProjectView, ProposedMilestone, Release, RoundType, Vote,
};
use crate::proposals::round::{make_round_id, round_id, Round, RoundView};
use crate::proposals::succession::{
    law_converted, law_decided, law_dispute_completed, law_disputed, law_initialized, law_moved,
    law_no_confidence_finalised, law_no_confidence_raised, law_no_confidence_voted,
    law_round_closed, law_submitted, law_unchanged, law_voted, law_withdrawn,
};
use crate::types::{
    ensure_signed, AccountId, AgreementHash, Balance, BlockNumber, CurrencyId, FundingType,
    MilestoneKey, Origin, ProjectKey, Weight,
};
use std::collections::BTreeMap;
use vstd::prelude::*;

verus! {

/// The project engine.
pub struct Pallet {
    config: Config,
    projects: BTreeMap<ProjectKey, Project>,
    project_count: u32,
    rounds: BTreeMap<u128, Round>,
    rounds_expiring: ExpiryIndex,
    in_dispute: BTreeMap<ProjectKey, Vec<MilestoneKey>>,
    completed: Vec<(AccountId, ProjectKey)>,
    now: BlockNumber,
    events: Vec<Event>,
    storage_version: Release,
}

impl View for Pallet {
    type V = State;

    closed spec fn view(&self) -> State {
        State {
            projects: self.projects@.map_values(|p: Project| p@),
            project_count: self.project_count,
            rounds: self.rounds@.map_values(|r: Round| r@),
            rounds_expiring: self.rounds_expiring@,
            in_dispute: self.in_dispute@.map_values(|keys: Vec<MilestoneKey>| keys@),
            completed: self.completed@,
            now: self.now,
            events: self.events@,
        }
    }
}

/// The sum of the contributions, or the largest amount there is.
pub fn sum_contributions(contributions: &Vec<(AccountId, Contribution)>) -> (total: Balance)
    ensures
        total == total_contributed(contributions@),
{
    let mut total: Balance = 0;
    let mut i: usize = 0;
    assert(contributions@.take(0) =~= Seq::<(AccountId, Contribution)>::empty());
    while i < contributions.len()
        invariant
            i <= contributions@.len(),
            total == total_contributed(contributions@.take(i as int)),
        decreases contributions@.len() - i,
    {
        assert(contributions@.take(i + 1).drop_last() == contributions@.take(i as int));
        total = total.saturating_add(contributions[i].1.value);
        i += 1;
    }
    assert(contributions@.take(i as int) == contributions@);
    total
}

/// The number of projects that `who` has completed.
fn count_completed(completed: &Vec<(AccountId, ProjectKey)>, who: &AccountId) -> (n: usize)
    ensures
        n == completed_by(completed@, *who),
{
    let mut n: usize = 0;
    let mut i: usize = 0;
    assert(completed@.take(0) =~= Seq::<(AccountId, ProjectKey)>::empty());
    while i < completed.len()
        invariant
            i <= completed@.len(),
            n <= i,
            n == completed_by(completed@.take(i as int), *who),
        decreases completed@.len() - i,
    {
        assert(completed@.take(i + 1).drop_last() == completed@.take(i as int));
        if completed[i].0.same(who) {
            n += 1;
        }
        i += 1;
    }
    assert(completed@.take(i as int) == completed@);
    n
}

impl Pallet {
    /// The rules under which the engine runs.
    pub closed spec fn cfg(&self) -> Config {
        self.config
    }

    /// The engine is within its limits.
    pub closed spec fn wf(&self) -> bool {
        &&& self.rounds_expiring.wf()
        &&& self.rounds_expiring.capacity() == self.config.bucket_capacity()
        &&& self.storage_version == Release::V3
        &&& self@.inv(self.config)
    }

    /// What a well-formed engine holds of its state.
    pub proof fn lemma_wf(&self)
        requires
            self.wf(),
        ensures
            self@.inv(self.cfg()),
    {
    }

    /// An engine without projects, at block 0.
    pub fn new(config: Config) -> (engine: Pallet)
        ensures
            engine.wf(),
            engine.cfg() == config,
            engine@ == State::empty(),
            engine@.orderly(config),
    {
        let engine = Pallet {
            config,
            projects: BTreeMap::new(),
            project_count: 0,
            rounds: BTreeMap::new(),
            rounds_expiring: ExpiryIndex::new(config.expiring_project_rounds_per_block),
            in_dispute: BTreeMap::new(),
            completed: Vec::new(),
            now: 0,
            events: Vec::new(),
            storage_version: Release::default(),
        };
        proof {
            assert(engine@.projects =~= Map::<ProjectKey, ProjectView>::empty());
            assert(engine@.rounds =~= Map::<u128, RoundView>::empty());
            assert(engine@.in_dispute =~= Map::<ProjectKey, Seq<MilestoneKey>>::empty());
            engine.rounds_expiring.lemma_bounded();
        }
        engine
    }

    /// The rules under which the engine runs.
    pub fn config(&self) -> (config: Config)
        ensures
            config == self.cfg(),
    {
        self.config
    }

    /// The layout of the store, which is the latest there is.
    pub fn storage_version(&self) -> (release: Release)
        requires
            self.wf(),
        ensures
            release == Release::V3,
    {
        self.storage_version
    }

    /// The current block.
    pub fn block_number(&self) -> (now: BlockNumber)
        ensures
            now == self@.now,
    {
        self.now
    }

    /// Moves the engine to block `now`.
    pub fn set_block_number(&mut self, now: BlockNumber)
        requires
            old(self).wf(),
        ensures
            final(self).wf(),
            final(self).cfg() == old(self).cfg(),
            final(self)@.succeeds(old(self)@, old(self).cfg()),
            final(self)@ == (State { now, ..old(self)@ }),
    {
        proof {
            law_moved(self@, self.config, now);
        }
        self.now = now;
    }

    /// The project under `key`, if it exists.
    pub fn projects(&self, key: ProjectKey) -> (r: Option<&Project>)
        ensures
            match r {
                Some(project) => self@.projects.contains_key(key) && self@.projects[key]
                    == project@,
                None => !self@.projects.contains_key(key),
            },
    {
        self.projects.get(&key)
    }

    /// The number of projects created so far.
    pub fn project_count(&self) -> (count: u32)
        ensures
            count == self@.project_count,
    {
        self.project_count
    }

    /// The open round of the given kind, if there is one. The milestone of a
    /// vote of no confidence is 0.
    pub fn rounds(
        &self,
        round_type: RoundType,
        project_key: ProjectKey,
        milestone_key: MilestoneKey,
    ) -> (r: Option<&Round>)
        ensures
            match r {
                Some(round) => self@.rounds.contains_key(
                    round_id(round_type, project_key, milestone_key),
                ) && self@.rounds[round_id(round_type, project_key, milestone_key)] == round@,
                None => !self@.rounds.contains_key(
                    round_id(round_type, project_key, milestone_key),
                ),
            },
    {
        let id = make_round_id(round_type, project_key, milestone_key);
        self.rounds.get(&id)
    }

    /// The milestones of the project that are under dispute, if any are.
    pub fn projects_in_dispute(&self, project_key: ProjectKey) -> (r: Option<&Vec<MilestoneKey>>)
        ensures
            match r {
                Some(keys) => self@.in_dispute.contains_key(project_key)
                    && self@.in_dispute[project_key] == keys@,
                None => !self@.in_dispute.contains_key(project_key),
            },
    {
        self.in_dispute.get(&project_key)
    }

    /// The projects that have paid out everything, with their initiators.
    pub fn completed_projects(&self) -> (completed: &Vec<(AccountId, ProjectKey)>)
        ensures
            completed@ == self@.completed,
    {
        &self.completed
    }

    /// Everything reported so far, oldest first.
    pub fn events(&self) -> (events: &Vec<Event>)
        ensures
            events@ == self@.events,
    {
        &self.events
    }

    /// The number of rounds that close at `block`.
    pub fn expiring_at(&self, block: BlockNumber) -> (n: usize)
        requires
            self.wf(),
        ensures
            n == self@.rounds_expiring[block].len(),
    {
        self.rounds_expiring.len_at(block)
    }

    /// The custody account of the project `key`.
    pub fn project_account_id(&self, key: ProjectKey) -> (account: AccountId)
        ensures
            account == project_account(self.cfg().pallet_id, key),
    {
        derive_project_account(self.config.pallet_id, key)
    }

    /// Whether a project can be created from these contributions and
    /// milestones.
    pub fn check_conversion(
        &self,
        contributions: &Vec<(AccountId, Contribution)>,
        milestones: &Vec<ProposedMilestone>,
    ) -> (r: Result<(), Error>)
        ensures
            r == self@.conversion_outcome(self.cfg(), contributions@, milestones@),
    {
        if self.project_count == u32::MAX {
            Err(Error::Overflow)
        } else if contributions.len() > self.config.maximum_contributors_per_project as usize {
            Err(Error::TooManyContributions)
        } else if !all_distinct(contributions) {
            Err(Error::InvalidParam)
        } else if milestones.len() > self.config.max_milestones_per_project as usize {
            Err(Error::TooManyMilestones)
        } else {
            Ok(())
        }
    }

    /// The milestones that `proposed` become in the project `project_key`:
    /// keyed from 0 upwards in the order given, none of them approved. Fails if
    /// there are more than a project may have.
    pub fn try_convert_to_milestones(
        &self,
        proposed: &Vec<ProposedMilestone>,
        project_key: ProjectKey,
    ) -> (r: Result<Vec<Milestone>, Error>)
        ensures
            match r {
                Ok(milestones) => proposed@.len() <= self.cfg().max_milestones_per_project
                    && milestones@ == milestones_from(proposed@, project_key),
                Err(e) => proposed@.len() > self.cfg().max_milestones_per_project && e
                    == Error::TooManyMilestones,
            },
    {
        if proposed.len() > self.config.max_milestones_per_project as usize {
            return Err(Error::TooManyMilestones);
        }
        let mut milestones: Vec<Milestone> = Vec::new();
        let mut milestone_key: u32 = 0;
        while (milestone_key as usize) < proposed.len()
            invariant
                milestone_key <= proposed@.len() <= u32::MAX,
                milestones@.len() == milestone_key,
                forall|i: int|
                    0 <= i < milestone_key ==> milestones@[i] == milestones_from(
                        proposed@,
                        project_key,
                    )[i],
            decreases proposed@.len() - milestone_key,
        {
            milestones.push(
                Milestone {
                    project_key,
                    milestone_key,
                    percentage_to_unlock: proposed[milestone_key as usize].percentage_to_unlock,
                    is_approved: false,
                    can_refund: false,
                    is_refunded: false,
                },
            );
            milestone_key += 1;
        }
        assert(milestones@ =~= milestones_from(proposed@, project_key));
        Ok(milestones)
    }

    /// What the creation of a project asks of the ledger before anything is
    /// moved: to set the storage deposit of the initiator aside.
    pub fn plan_deposit(&self, beneficiary: AccountId) -> (calls: Vec<LedgerCall>)
        ensures
            calls@ == seq![
                LedgerCall::Reserve {
                    currency: CurrencyId::Native,
                    who: beneficiary,
                    amount: self.cfg().project_storage_deposit,
                },
            ],
    {
        let mut calls: Vec<LedgerCall> = Vec::new();
        calls.push(
            LedgerCall::Reserve {
                currency: CurrencyId::Native,
                who: beneficiary,
                amount: self.config.project_storage_deposit,
            },
        );
        calls
    }

    /// What the funding of a project asks of the ledger: for each
    /// contribution, in order, to free what the contributor has set aside and
    /// to move it into the custody account. A project funded by a treasury asks
    /// nothing.
    pub fn plan_funding(
        funding_type: FundingType,
        contributions: &Vec<(AccountId, Contribution)>,
        project_account_id: AccountId,
        currency_id: CurrencyId,
    ) -> (calls: Vec<LedgerCall>)
        ensures
            calls@ == funding_calls(
                funding_type,
                contributions@,
                project_account_id,
                currency_id,
            ),
    {
        let mut calls: Vec<LedgerCall> = Vec::new();
        match funding_type {
            FundingType::Treasury(_) => {},
            _ => {
                let mut i: usize = 0;
                assert(contributions@.take(0) =~= Seq::<(AccountId, Contribution)>::empty());
                while i < contributions.len()
                    invariant
                        i <= contributions@.len(),
                        !(funding_type is Treasury),
                        calls@ == funding_calls(
                            funding_type,
                            contributions@.take(i as int),
                            project_account_id,
                            currency_id,
                        ),
                    decreases contributions@.len() - i,
                {
                    let (account, contribution) = contributions[i];
                    assert(contributions@.take(i + 1).drop_last() == contributions@.take(i as int));
                    calls.push(
                        LedgerCall::Unreserve {
                            currency: currency_id,
                            who: account,
                            amount: contribution.value,
                        },
                    );
                    calls.push(
                        LedgerCall::Transfer {
                            currency: currency_id,
                            from: account,
                            to: project_account_id,
                            amount: contribution.value,
                        },
                    );
                    i += 1;
                }
                assert(contributions@.take(i as int) == contributions@);
            },
        }
        calls
    }

    /// Moves the contributions into the custody account of a project, as
    /// planned. A project funded by its contributors takes each contribution
    /// out of what the contributor has reserved; a project funded by a treasury
    /// waits for the funds to arrive. Says whether anything was to be moved;
    /// stops at the first transfer that the ledger refuses.
    pub fn fund_project<L: Ledger>(
        journal: &mut Journal<L>,
        funding_type: FundingType,
        contributions: &Vec<(AccountId, Contribution)>,
        project_account_id: AccountId,
        currency_id: CurrencyId,
    ) -> (r: Result<bool, LedgerError>)
        ensures
            asked(
                old(journal).calls@,
                final(journal).calls@,
                funding_calls(funding_type, contributions@, project_account_id, currency_id),
                r.is_ok(),
            ),
            r.is_ok() ==> r == Ok::<bool, LedgerError>(!(funding_type is Treasury)),
            funding_type is Treasury ==> r.is_ok() && final(journal).ledger == old(journal).ledger,
    {
        let calls = Self::plan_funding(
            funding_type,
            contributions,
            project_account_id,
            currency_id,
        );
        match journal.perform(&calls) {
            Ok(()) => match funding_type {
                FundingType::Treasury(_) => Ok(false),
                _ => Ok(true),
            },
            Err(e) => Err(e),
        }
    }

    /// Creates the project once the ledger has answered: with `funding` a
    /// refusal nothing is created and the refusal is handed on; otherwise the
    /// project is stored under the next key and its creation reported.
    pub fn create_project(
        &mut self,
        currency_id: CurrencyId,
        contributions: Vec<(AccountId, Contribution)>,
        brief_hash: AgreementHash,
        beneficiary: AccountId,
        proposed_milestones: Vec<ProposedMilestone>,
        funding_type: FundingType,
        funding: Result<(), LedgerError>,
    ) -> (r: Result<(), Error>)
        requires
            old(self).wf(),
        ensures
            final(self).wf(),
            final(self).cfg() == old(self).cfg(),
            final(self)@.succeeds(old(self)@, old(self).cfg()),
            r == (match old(self)@.conversion_outcome(
                old(self).cfg(),
                contributions@,
                proposed_milestones@,
            ) {
                Err(e) => Err::<(), Error>(e),
                Ok(_) => match funding {
                    Err(e) => Err::<(), Error>(Error::Ledger(e)),
                    Ok(_) => Ok::<(), Error>(()),
                },
            }),
            r.is_ok() ==> final(self)@ == old(self)@.converted(
                old(self).cfg(),
                currency_id,
                contributions@,
                brief_hash,
                beneficiary,
                proposed_milestones@,
                funding_type,
            ),
            r.is_err() ==> final(self)@ == old(self)@,
    {
        proof {
            law_unchanged(self@, self.config);
            if self@.conversion_outcome(
                self.config,
                contributions@,
                proposed_milestones@,
            ).is_ok() {
                law_converted(
                    self@,
                    self.config,
                    currency_id,
                    contributions@,
                    brief_hash,
                    beneficiary,
                    proposed_milestones@,
                    funding_type,
                );
            }
        }
        match self.check_conversion(&contributions, &proposed_milestones) {
            Ok(()) => {},
            Err(e) => {
                return Err(e);
            },
        }
        match funding {
            Ok(()) => {},
            Err(e) => {
                return Err(Error::Ledger(e));
            },
        }
        let project_key = self.project_count + 1;
        let milestones = match self.try_convert_to_milestones(&proposed_milestones, project_key) {
            Ok(milestones) => milestones,
            Err(e) => {
                return Err(e);
            },
        };
        let raised_funds = sum_contributions(&contributions);
        let project = Project {
            agreement_hash: brief_hash,
            milestones,
            contributions,
            currency_id,
            withdrawn_funds: 0,
            raised_funds,
            initiator: beneficiary,
            created_on: self.now,
            cancelled: false,
            funding_type,
        };
        let custody = self.project_account_id(project_key);
        self.projects.insert(project_key, project);
        self.project_count = project_key;
        self.events.push(
            Event::ProjectCreated(
                beneficiary,
                brief_hash,
                project_key,
                raised_funds,
                currency_id,
                custody,
            ),
        );
        assert(self@.projects =~= old(self)@.projects.insert(project_key, project@));
        Ok(())
    }

    /// Creates a project from funds that its contributors have reserved, or
    /// that a treasury will send: reserves the storage deposit of the
    /// initiator, moves the contributions into the custody account of the
    /// project, and stores the project under the next key. Whatever the ledger
    /// refuses is handed on, and nothing is created then.
    pub fn convert_to_proposal<L: Ledger>(
        &mut self,
        journal: &mut Journal<L>,
        currency_id: CurrencyId,
        contributions: Vec<(AccountId, Contribution)>,
        brief_hash: AgreementHash,
        beneficiary: AccountId,
        proposed_milestones: Vec<ProposedMilestone>,
        funding_type: FundingType,
    ) -> (r: Result<(), Error>)
        requires
            old(self).wf(),
        ensures
            final(self).wf(),
            final(self).cfg() == old(self).cfg(),
            final(self)@.succeeds(old(self)@, old(self).cfg()),
            match old(self)@.conversion_outcome(
                old(self).cfg(),
                contributions@,
                proposed_milestones@,
            ) {
                Err(e) => r == Err::<(), Error>(e) && *final(journal) == *old(journal),
                Ok(_) => (r.is_ok() || r is Err && r->Err_0 is Ledger) && asked(
                    old(journal).calls@,
                    final(journal).calls@,
                    old(self)@.conversion_calls(
                        old(self).cfg(),
                        currency_id,
                        contributions@,
                        beneficiary,
                        funding_type,
                    ),
                    r.is_ok(),
                ),
            },
            r.is_ok() ==> final(self)@ == old(self)@.converted(
                old(self).cfg(),
                currency_id,
                contributions@,
                brief_hash,
                beneficiary,
                proposed_milestones@,
                funding_type,
            ),
            r.is_err() ==> final(self)@ == old(self)@,
    {
        proof {
            law_unchanged(self@, self.config);
        }
        match self.check_conversion(&contributions, &proposed_milestones) {
            Ok(()) => {},
            Err(e) => {
                return Err(e);
            },
        }
        let custody = self.project_account_id(self.project_count + 1);
        let deposit = self.plan_deposit(beneficiary);
        let ghost funding_plan = funding_calls(funding_type, contributions@, custody, currency_id);
        let funding = match journal.perform(&deposit) {
            Ok(()) => {
                let ghost between = journal.calls@;
                let funded = Self::fund_project(
                    journal,
                    funding_type,
                    &contributions,
                    custody,
                    currency_id,
                );
                proof {
                    lemma_asked_in_a_row(
                        old(journal).calls@,
                        between,
                        journal.calls@,
                        deposit@,
                        funding_plan,
                        funded.is_ok(),
                    );
                }
                match funded {
                    Ok(_) => Ok(()),
                    Err(e) => Err(e),
                }
            },
            Err(e) => {
                proof {
                    lemma_asked_first(
                        old(journal).calls@,
                        journal.calls@,
                        deposit@,
                        funding_plan,
                    );
                }
                Err(e)
            },
        };
        self.create_project(
            currency_id,
            contributions,
            brief_hash,
            beneficiary,
            proposed_milestones,
            funding_type,
            funding,
        )
    }

    /// Closes the voting round of the milestone: takes it out of the store and
    /// out of the index. Fails if no such round is open.
    pub(crate) fn close_voting_round(
        &mut self,
        project_key: ProjectKey,
        milestone_key: MilestoneKey,
    ) -> (r: Result<(), Error>)
        requires
            old(self).wf(),
        ensures
            final(self).wf(),
            final(self).cfg() == old(self).cfg(),
            final(self)@.succeeds(old(self)@, old(self).cfg()),
            r == (if old(self)@.rounds.contains_key(
                round_id(RoundType::VotingRound, project_key, milestone_key),
            ) {
                Ok::<(), Error>(())
            } else {
                Err::<(), Error>(Error::VotingRoundNotStarted)
            }),
            r.is_ok() ==> final(self)@ == old(self)@.round_closed(
                round_id(RoundType::VotingRound, project_key, milestone_key),
            ),
            r.is_err() ==> final(self)@ == old(self)@,
    {
        proof {
            law_unchanged(self@, self.config);
        }
        let id = make_round_id(RoundType::VotingRound, project_key, milestone_key);
        self.close_round(id)
    }

    /// Closes the round under `id`, if it is open.
    fn close_round(&mut self, id: u128) -> (r: Result<(), Error>)
        requires
            old(self).wf(),
        ensures
            final(self).wf(),
            final(self).cfg() == old(self).cfg(),
            final(self)@.succeeds(old(self)@, old(self).cfg()),
            r == (if old(self)@.rounds.contains_key(id) {
                Ok::<(), Error>(())
            } else {
                Err::<(), Error>(Error::VotingRoundNotStarted)
            }),
            r.is_ok() ==> final(self)@ == old(self)@.round_closed(id),
            r.is_err() ==> final(self)@ == old(self)@,
    {
        proof {
            law_unchanged(self@, self.config);
            law_round_closed(self@, self.config, id);
        }
        match self.rounds.remove(&id) {
            Some(round) => {
                self.rounds_expiring.remove(id, round.expires_at);
                assert(self@.rounds =~= old(self)@.rounds.remove(id));
                Ok(())
            },
            None => {
                assert(self@.rounds =~= old(self)@.rounds);
                Err(Error::VotingRoundNotStarted)
            },
        }
    }

    /// Decides the round of the milestone if `vote` decides it: once the
    /// weight for the milestone reaches `funding_threshold`, the milestone is
    /// approved and the round closed; once the weight against it does, the
    /// round is closed and the milestone stays as it was. Fails if the tally
    /// decides but no round is open.
    pub(crate) fn try_auto_finalise_milestone_voting(
        &mut self,
        project_key: ProjectKey,
        milestone_key: MilestoneKey,
        vote: &Vote,
        funding_threshold: Balance,
        who: AccountId,
    ) -> (r: Result<(), Error>)
        requires
            old(self).wf(),
        ensures
            final(self).wf(),
            final(self).cfg() == old(self).cfg(),
            final(self)@.succeeds(old(self)@, old(self).cfg()),
            r == (if (vote.yay >= funding_threshold || vote.nay >= funding_threshold)
                && !old(self)@.rounds.contains_key(
                round_id(RoundType::VotingRound, project_key, milestone_key),
            ) {
                Err::<(), Error>(Error::VotingRoundNotStarted)
            } else {
                Ok::<(), Error>(())
            }),
            r.is_ok() ==> final(self)@ == old(self)@.auto_finalised(
                who,
                project_key,
                milestone_key,
                *vote,
                funding_threshold,
            ),
            r.is_err() ==> final(self)@ == old(self)@,
    {
        proof {
            law_unchanged(self@, self.config);
            law_decided(
                self@,
                self.config,
                who,
                project_key,
                milestone_key,
                *vote,
                funding_threshold,
            );
        }
        if vote.yay >= funding_threshold {
            match self.close_voting_round(project_key, milestone_key) {
                Ok(()) => {},
                Err(e) => {
                    return Err(e);
                },
            }
            match self.projects.remove(&project_key) {
                Some(mut project) => {
                    project.approve_milestone(milestone_key);
                    self.projects.insert(project_key, project);
                    assert(self@.projects =~= old(self)@.projects.insert(project_key, project@));
                },
                None => {
                    assert(self@.projects =~= old(self)@.projects);
                },
            }
            self.events.push(Event::MilestoneApproved(who, project_key, milestone_key, self.now));
        } else if vote.nay >= funding_threshold {
            match self.close_voting_round(project_key, milestone_key) {
                Ok(()) => {},
                Err(e) => {
                    return Err(e);
                },
            }
            self.events.push(Event::MilestoneRejected(project_key, milestone_key));
        }
        Ok(())
    }

    /// Opens the vote on a milestone. Only the initiator of the project may,
    /// for a milestone that the project has, that is not approved yet and that
    /// has no round open; the round closes when the voting window has passed.
    pub fn new_milestone_submission(
        &mut self,
        who: AccountId,
        project_key: ProjectKey,
        milestone_key: MilestoneKey,
    ) -> (r: Result<(), Error>)
        requires
            old(self).wf(),
        ensures
            final(self).wf(),
            final(self).cfg() == old(self).cfg(),
            final(self)@.succeeds(old(self)@, old(self).cfg()),
            r == old(self)@.submit_outcome(old(self).cfg(), who, project_key, milestone_key),
            r.is_ok() ==> final(self)@ == old(self)@.submitted(
                old(self).cfg(),
                who,
                project_key,
                milestone_key,
            ),
            r.is_err() ==> final(self)@ == old(self)@,
    {
        proof {
            law_unchanged(self@, self.config);
            if self@.submit_outcome(self.config, who, project_key, milestone_key).is_ok() {
                law_submitted(self@, self.config, who, project_key, milestone_key);
            }
        }
        match self.projects.get(&project_key) {
            Some(project) => {
                if !project.initiator.same(&who) {
                    return Err(Error::UserIsNotInitiator);
                }
                if project.find_milestone(milestone_key).is_none() {
                    return Err(Error::MilestoneDoesNotExist);
                }
                if project.is_approved(milestone_key) {
                    return Err(Error::MilestoneAlreadyApproved);
                }
            },
            None => {
                return Err(Error::ProjectDoesNotExist);
            },
        }
        let id = make_round_id(RoundType::VotingRound, project_key, milestone_key);
        if self.rounds.contains_key(&id) {
            return Err(Error::RoundStarted);
        }
        let expiry_block = self.now.saturating_add(self.config.milestone_voting_window);
        if self.rounds_expiring.insert(id, expiry_block).is_err() {
            return Err(Error::Overflow);
        }
        let round = Round::new(RoundType::VotingRound, project_key, milestone_key, expiry_block);
        self.rounds.insert(id, round);
        self.events.push(Event::MilestoneSubmitted(who, project_key, milestone_key));
        self.events.push(Event::VotingRoundCreated(project_key));
        assert(self@.rounds =~= old(self)@.rounds.insert(id, round@));
        Ok(())
    }

    /// Counts the vote of a contributor on a milestone, with the weight of the
    /// contribution. A contributor who votes again changes their vote: the
    /// weight moves, it is not counted twice. Once the weight for the milestone
    /// reaches the required share of the raised funds, the milestone is approved
    /// and the round closed; once the weight against it does, the round is
    /// closed and the milestone can be submitted again.
    pub fn new_milestone_vote(
        &mut self,
        who: AccountId,
        project_key: ProjectKey,
        milestone_key: MilestoneKey,
        approve_milestone: bool,
    ) -> (r: Result<(), Error>)
        requires
            old(self).wf(),
        ensures
            final(self).wf(),
            final(self).cfg() == old(self).cfg(),
            final(self)@.succeeds(old(self)@, old(self).cfg()),
            r == old(self)@.vote_outcome(who, project_key, milestone_key),
            r.is_ok() ==> final(self)@ == old(self)@.voted(
                old(self).cfg(),
                who,
                project_key,
                milestone_key,
                approve_milestone,
            ),
            r.is_err() ==> final(self)@ == old(self)@,
    {
        proof {
            law_unchanged(self@, self.config);
            if self@.vote_outcome(who, project_key, milestone_key).is_ok() {
                law_voted(
                    self@,
                    self.config,
                    who,
                    project_key,
                    milestone_key,
                    approve_milestone,
                );
            }
        }
        let id = make_round_id(RoundType::VotingRound, project_key, milestone_key);
        let (contribution_amount, funding_threshold) = match self.projects.get(&project_key) {
            Some(project) => {
                if !self.rounds.contains_key(&id) {
                    return Err(Error::VotingRoundNotStarted);
                }
                match self.in_dispute.get(&project_key) {
                    Some(keys) => {
                        if contains_key(keys, milestone_key) {
                            return Err(Error::MilestonesAlreadyInDispute);
                        }
                    },
                    None => {},
                }
                match project.contribution(&who) {
                    Some(contribution) => (
                        contribution.value,
                        mul_percent(
                            self.config.percent_required_for_vote_to_pass,
                            project.raised_funds,
                        ),
                    ),
                    None => {
                        return Err(Error::OnlyContributorsCanVote);
                    },
                }
            },
            None => {
                return Err(Error::ProjectDoesNotExist);
            },
        };
        let mut round = self.rounds.remove(&id).unwrap();
        round.cast(who, approve_milestone, contribution_amount);
        let vote = round.vote;
        self.rounds.insert(id, round);
        assert(self@.rounds =~= old(self)@.rounds.insert(id, round@));
        let ghost counted = self@;
        assert(counted == (State { rounds: old(self)@.rounds.insert(id, round@), ..old(self)@ }));
        proof {
            lemma_inv_frame(old(self)@, counted, self.config);
        }
        let settled = self.try_auto_finalise_milestone_voting(
            project_key,
            milestone_key,
            &vote,
            funding_threshold,
            who,
        );
        assert(settled.is_ok());
        self.events.push(
            Event::VoteSubmitted(who, project_key, milestone_key, approve_milestone, self.now),
        );
        Ok(())
    }

    /// Finalises the vote on a milestone whose round is open with enough
    /// weight for the milestone: approves the milestone and closes the round.
    /// Only the initiator of the project may. A vote that reaches the threshold
    /// decides its round at once, so this is for rounds that need no vote to
    /// pass.
    pub fn do_finalise_milestone_voting(
        &mut self,
        who: AccountId,
        project_key: ProjectKey,
        milestone_key: MilestoneKey,
    ) -> (r: Result<(), Error>)
        requires
            old(self).wf(),
        ensures
            final(self).wf(),
            final(self).cfg() == old(self).cfg(),
            final(self)@.succeeds(old(self)@, old(self).cfg()),
            r == old(self)@.finalise_outcome(old(self).cfg(), who, project_key, milestone_key),
            r.is_ok() ==> final(self)@ == old(self)@.finalised(
                old(self).cfg(),
                who,
                project_key,
                milestone_key,
            ),
            r.is_err() ==> final(self)@ == old(self)@,
    {
        proof {
            law_unchanged(self@, self.config);
        }
        let id = make_round_id(RoundType::VotingRound, project_key, milestone_key);
        let (vote, funding_threshold) = match self.projects.get(&project_key) {
            Some(project) => {
                if !project.initiator.same(&who) {
                    return Err(Error::UserIsNotInitiator);
                }
                let funding_threshold = mul_percent(
                    self.config.percent_required_for_vote_to_pass,
                    project.raised_funds,
                );
                match self.rounds.get(&id) {
                    Some(round) => {
                        if round.vote.yay < funding_threshold {
                            return Err(Error::MilestoneVotingNotComplete);
                        }
                        (round.vote, funding_threshold)
                    },
                    None => {
                        return Err(Error::VotingRoundNotStarted);
                    },
                }
            },
            None => {
                return Err(Error::ProjectDoesNotExist);
            },
        };
        self.try_auto_finalise_milestone_voting(
            project_key,
            milestone_key,
            &vote,
            funding_threshold,
            who,
        )
    }

    /// Finalises the vote on a milestone, on behalf of the account that
    /// signed.
    pub fn finalise_milestone_voting(
        &mut self,
        origin: Origin,
        project_key: ProjectKey,
        milestone_key: MilestoneKey,
    ) -> (r: Result<(), Error>)
        requires
            old(self).wf(),
        ensures
            final(self).wf(),
            final(self).cfg() == old(self).cfg(),
            final(self)@.succeeds(old(self)@, old(self).cfg()),
            r == (match origin {
                Origin::Signed(who) => old(self)@.finalise_outcome(
                    old(self).cfg(),
                    who,
                    project_key,
                    milestone_key,
                ),
                _ => Err::<(), Error>(Error::BadOrigin),
            }),
            r.is_ok() ==> final(self)@ == old(self)@.finalised(
                old(self).cfg(),
                origin->Signed_0,
                project_key,
                milestone_key,
            ),
            r.is_err() ==> final(self)@ == old(self)@,
    {
        proof {
            law_unchanged(self@, self.config);
        }
        match ensure_signed(origin) {
            Ok(who) => self.do_finalise_milestone_voting(who, project_key, milestone_key),
            Err(_) => Err(Error::BadOrigin),
        }
    }

    /// What `who` can withdraw from the project now, from which account and to
    /// whom, or why nothing: what the approved milestones have unlocked, less
    /// what has been withdrawn, of which the fee goes to the fee account and
    /// the rest to the initiator.
    pub fn plan_withdrawal(&self, who: AccountId, project_key: ProjectKey) -> (r: Result<
        Withdrawal,
        Error,
    >)
        ensures
            r == self@.withdrawal(self.cfg(), who, project_key),
    {
        let project = match self.projects.get(&project_key) {
            Some(project) => project,
            None => {
                return Err(Error::ProjectDoesNotExist);
            },
        };
        if project.cancelled {
            return Err(Error::ProjectWithdrawn);
        }
        if !who.same(&project.initiator) {
            return Err(Error::UserIsNotInitiator);
        }
        let amount = project.unlocked_funds().saturating_sub(project.withdrawn_funds);
        if amount == 0 {
            return Err(Error::NoAvailableFundsToWithdraw);
        }
        let fee = mul_percent(self.config.imbue_fee, amount);
        let completes = project.withdrawn_funds.saturating_add(amount) == project.raised_funds;
        if completes && count_completed(&self.completed, &project.initiator)
            >= self.config.max_projects_per_account as usize {
            return Err(Error::TooManyProjects);
        }
        Ok(
            Withdrawal {
                currency_id: project.currency_id,
                custody: self.project_account_id(project_key),
                fee_account: self.config.imbue_fee_account,
                initiator: project.initiator,
                fee,
                payout: amount.saturating_sub(fee),
                amount,
                completes,
            },
        )
    }

    /// What the withdrawal `plan` asks of the ledger: the fee for the fee
    /// account, then the rest for the initiator, both from the custody account;
    /// and, if the project has then paid out everything, the storage deposit of
    /// the initiator back.
    pub fn withdrawal_calls(&self, plan: &Withdrawal) -> (calls: Vec<LedgerCall>)
        ensures
            calls@ == plan.calls(self.cfg()),
    {
        let mut calls: Vec<LedgerCall> = Vec::new();
        calls.push(
            LedgerCall::Transfer {
                currency: plan.currency_id,
                from: plan.custody,
                to: plan.fee_account,
                amount: plan.fee,
            },
        );
        calls.push(
            LedgerCall::Transfer {
                currency: plan.currency_id,
                from: plan.custody,
                to: plan.initiator,
                amount: plan.payout,
            },
        );
        if plan.completes {
            calls.push(
                LedgerCall::Unreserve {
                    currency: CurrencyId::Native,
                    who: plan.initiator,
                    amount: self.config.project_storage_deposit,
                },
            );
        }
        calls
    }

    /// Books a withdrawal once the ledger has answered: with `transfers` a
    /// refusal nothing is booked and the refusal is handed on; otherwise the
    /// amount is added to what was withdrawn, and a project that has then paid
    /// out everything is removed and recorded as completed.
    pub fn settle_withdrawal(
        &mut self,
        who: AccountId,
        project_key: ProjectKey,
        transfers: Result<(), LedgerError>,
    ) -> (r: Result<Withdrawal, Error>)
        requires
            old(self).wf(),
        ensures
            final(self).wf(),
            final(self).cfg() == old(self).cfg(),
            final(self)@.succeeds(old(self)@, old(self).cfg()),
            r == (match old(self)@.withdrawal(old(self).cfg(), who, project_key) {
                Err(e) => Err::<Withdrawal, Error>(e),
                Ok(plan) => match transfers {
                    Err(e) => Err::<Withdrawal, Error>(Error::Ledger(e)),
                    Ok(_) => Ok::<Withdrawal, Error>(plan),
                },
            }),
            r.is_ok() ==> final(self)@ == old(self)@.withdrawn(who, project_key, r.unwrap()),
            r.is_err() ==> final(self)@ == old(self)@,
    {
        proof {
            law_unchanged(self@, self.config);
            if self@.withdrawal(self.config, who, project_key).is_ok() {
                law_withdrawn(self@, self.config, who, project_key);
            }
        }
        let plan = match self.plan_withdrawal(who, project_key) {
            Ok(plan) => plan,
            Err(e) => {
                return Err(e);
            },
        };
        match transfers {
            Ok(()) => {},
            Err(e) => {
                return Err(Error::Ledger(e));
            },
        }
        let mut project = self.projects.remove(&project_key).unwrap();
        project.withdrawn_funds = project.withdrawn_funds.saturating_add(plan.amount);
        if plan.completes {
            self.completed.push((project.initiator, project_key));
            assert(self@.projects =~= old(self)@.projects.remove(project_key));
        } else {
            self.projects.insert(project_key, project);
            assert(self@.projects =~= old(self)@.projects.insert(project_key, project@));
        }
        self.events.push(
            Event::ProjectFundsWithdrawn(who, project_key, plan.payout, plan.currency_id),
        );
        Ok(plan)
    }

    /// Pays out to the initiator what the approved milestones have unlocked
    /// and has not been withdrawn yet: first the fee to the fee account, then
    /// the rest to the initiator, both from the custody account of the project.
    /// Nothing is booked unless the ledger made both transfers. A project that
    /// has then paid out everything gets its storage deposit back and is
    /// removed.
    pub fn new_withdrawal<L: Ledger>(
        &mut self,
        journal: &mut Journal<L>,
        who: AccountId,
        project_key: ProjectKey,
    ) -> (r: Result<(), Error>)
        requires
            old(self).wf(),
        ensures
            final(self).wf(),
            final(self).cfg() == old(self).cfg(),
            final(self)@.succeeds(old(self)@, old(self).cfg()),
            match old(self)@.withdrawal(old(self).cfg(), who, project_key) {
                Err(e) => r == Err::<(), Error>(e) && *final(journal) == *old(journal),
                Ok(plan) => (r.is_ok() || r is Err && r->Err_0 is Ledger) && asked(
                    old(journal).calls@,
                    final(journal).calls@,
                    plan.calls(old(self).cfg()),
                    r.is_ok(),
                ),
            },
            r.is_ok() ==> final(self)@ == old(self)@.withdrawn(
                who,
                project_key,
                old(self)@.withdrawal(old(self).cfg(), who, project_key).unwrap(),
            ),
            r.is_err() ==> final(self)@ == old(self)@,
    {
        proof {
            law_unchanged(self@, self.config);
        }
        let plan = match self.plan_withdrawal(who, project_key) {
            Ok(plan) => plan,
            Err(e) => {
                return Err(e);
            },
        };
        let calls = self.withdrawal_calls(&plan);
        let transfers = journal.perform(&calls);
        match self.settle_withdrawal(who, project_key, transfers) {
            Ok(_) => Ok(()),
            Err(e) => Err(e),
        }
    }

    /// Raises a vote of no confidence in the initiator of a project. Only a
    /// contributor may, and only while no such vote is open; the vote of the
    /// contributor counts against the initiator from the start.
    pub fn raise_no_confidence_round(&mut self, who: AccountId, project_key: ProjectKey) -> (r:
        Result<(), Error>)
        requires
            old(self).wf(),
        ensures
            final(self).wf(),
            final(self).cfg() == old(self).cfg(),
            final(self)@.succeeds(old(self)@, old(self).cfg()),
            r == old(self)@.no_confidence_outcome(old(self).cfg(), who, project_key),
            r.is_ok() ==> final(self)@ == old(self)@.no_confidence_raised(
                old(self).cfg(),
                who,
                project_key,
            ),
            r.is_err() ==> final(self)@ == old(self)@,
    {
        proof {
            law_unchanged(self@, self.config);
            if self@.no_confidence_outcome(self.config, who, project_key).is_ok() {
                law_no_confidence_raised(self@, self.config, who, project_key);
            }
        }
        let weight = match self.projects.get(&project_key) {
            Some(project) => match project.contribution(&who) {
                Some(contribution) => contribution.value,
                None => {
                    return Err(Error::OnlyContributorsCanVote);
                },
            },
            None => {
                return Err(Error::ProjectDoesNotExist);
            },
        };
        let id = make_round_id(RoundType::VoteOfNoConfidence, project_key, 0);
        if self.rounds.contains_key(&id) {
            return Err(Error::RoundStarted);
        }
        let expiry_block = self.now.saturating_add(self.config.no_confidence_time_limit);
        if self.rounds_expiring.insert(id, expiry_block).is_err() {
            return Err(Error::Overflow);
        }
        let mut round = Round::new(RoundType::VoteOfNoConfidence, project_key, 0, expiry_block);
        round.vote.nay = weight;
        round.ballots.push((who, false));
        assert(round@.ballots =~= seq![(who, false)]);
        self.rounds.insert(id, round);
        self.events.push(Event::NoConfidenceRoundCreated(who, project_key));
        assert(self@.rounds =~= old(self)@.rounds.insert(id, round@));
        Ok(())
    }

    /// Counts the vote of a contributor in the vote of no confidence in a
    /// project, with the weight of the contribution; a vote for is a vote for
    /// the project to continue. A contributor who votes again changes their
    /// vote.
    pub fn add_vote_no_confidence(
        &mut self,
        who: AccountId,
        project_key: ProjectKey,
        is_yay: bool,
    ) -> (r: Result<(), Error>)
        requires
            old(self).wf(),
        ensures
            final(self).wf(),
            final(self).cfg() == old(self).cfg(),
            final(self)@.succeeds(old(self)@, old(self).cfg()),
            r == old(self)@.no_confidence_vote_outcome(who, project_key),
            r.is_ok() ==> final(self)@ == old(self)@.no_confidence_voted(who, project_key, is_yay),
            r.is_err() ==> final(self)@ == old(self)@,
    {
        proof {
            law_unchanged(self@, self.config);
            if self@.no_confidence_vote_outcome(who, project_key).is_ok() {
                law_no_confidence_voted(self@, self.config, who, project_key, is_yay);
            }
        }
        let id = make_round_id(RoundType::VoteOfNoConfidence, project_key, 0);
        let weight = match self.projects.get(&project_key) {
            Some(project) => {
                if !self.rounds.contains_key(&id) {
                    return Err(Error::ProjectNotInRound);
                }
                match project.contribution(&who) {
                    Some(contribution) => contribution.value,
                    None => {
                        return Err(Error::OnlyContributorsCanVote);
                    },
                }
            },
            None => {
                return Err(Error::ProjectDoesNotExist);
            },
        };
        let mut round = self.rounds.remove(&id).unwrap();
        round.cast(who, is_yay, weight);
        self.rounds.insert(id, round);
        self.events.push(Event::NoConfidenceRoundVotedUpon(who, project_key));
        assert(self@.rounds =~= old(self)@.rounds.insert(id, round@));
        Ok(())
    }

    /// Finalises the vote of no confidence in a project: if the weight against
    /// the initiator reaches `majority_required` percent of the raised funds,
    /// the round is closed, the project is cancelled, so that nothing more can
    /// be withdrawn from it, and the passing of the vote is reported. Only a
    /// contributor may.
    pub(crate) fn call_finalise_no_confidence_vote(
        &mut self,
        who: AccountId,
        project_key: ProjectKey,
        majority_required: u8,
    ) -> (r: Result<(), Error>)
        requires
            old(self).wf(),
        ensures
            final(self).wf(),
            final(self).cfg() == old(self).cfg(),
            final(self)@.succeeds(old(self)@, old(self).cfg()),
            r == old(self)@.no_confidence_finalise_outcome(who, project_key, majority_required),
            r.is_ok() ==> final(self)@ == old(self)@.no_confidence_finalised(who, project_key),
            r.is_err() ==> final(self)@ == old(self)@,
    {
        proof {
            law_unchanged(self@, self.config);
            if self@.no_confidence_finalise_outcome(who, project_key, majority_required).is_ok() {
                law_no_confidence_finalised(
                    self@,
                    self.config,
                    who,
                    project_key,
                    majority_required,
                );
            }
        }
        let id = make_round_id(RoundType::VoteOfNoConfidence, project_key, 0);
        match self.projects.get(&project_key) {
            Some(project) => {
                let round = match self.rounds.get(&id) {
                    Some(round) => round,
                    None => {
                        return Err(Error::ProjectNotInRound);
                    },
                };
                if project.contribution(&who).is_none() {
                    return Err(Error::OnlyContributorsCanVote);
                }
                let threshold_votes = mul_percent(majority_required, project.raised_funds);
                if round.vote.nay < threshold_votes {
                    return Err(Error::VoteThresholdNotMet);
                }
            },
            None => {
                return Err(Error::ProjectDoesNotExist);
            },
        }
        let closed = self.close_round(id);
        assert(closed.is_ok());
        let mut project = self.projects.remove(&project_key).unwrap();
        project.cancelled = true;
        self.projects.insert(project_key, project);
        assert(self@.projects =~= old(self)@.projects.insert(project_key, project@));
        self.events.push(Event::NoConfidenceRoundFinalised(who, project_key));
        Ok(())
    }

    /// Begins the block `block`: empties its bucket and closes every round
    /// that an entry of the bucket names and that is still open. Entries of
    /// rounds that are gone are passed over. The cost counts one read for the
    /// bucket and one for each entry, and one write for the bucket.
    pub fn on_initialize(&mut self, block: BlockNumber) -> (weight: Weight)
        requires
            old(self).wf(),
        ensures
            final(self).wf(),
            final(self).cfg() == old(self).cfg(),
            final(self)@.succeeds(old(self)@, old(self).cfg()),
            final(self)@ == old(self)@.initialized(block),
            weight.reads == old(self)@.rounds_expiring[block].len() + 1,
            weight.writes == 1,
    {
        proof {
            law_initialized(self@, self.config, block);
        }
        proof {
            self.rounds_expiring.lemma_within_capacity(block);
            lemma_drained_inv(old(self)@, self.config, block);
        }
        let ids = self.rounds_expiring.take(block);
        let ghost start = self@;
        let mut i: usize = 0;
        assert(ids@.take(0) =~= Seq::<u128>::empty());
        while i < ids.len()
            invariant
                i <= ids@.len(),
                self.wf(),
                self.cfg() == old(self).cfg(),
                self@ == start.swept(ids@.take(i as int)),
            decreases ids@.len() - i,
        {
            assert(ids@.take(i + 1).drop_last() == ids@.take(i as int));
            let _ = self.close_round(ids[i]);
            i += 1;
        }
        assert(ids@.take(i as int) == ids@);
        Weight::reads_writes(ids.len() as u64 + 1, 1)
    }

    /// Whether the project has every milestone of `keys`.
    fn has_all_milestones(project: &Project, keys: &Vec<MilestoneKey>) -> (r: bool)
        ensures
            r == !(exists|i: int|
                0 <= i < keys@.len() && !has_milestone(project@.milestones, #[trigger] keys@[i])),
    {
        let mut i: usize = 0;
        while i < keys.len()
            invariant
                i <= keys@.len(),
                forall|j: int|
                    0 <= j < i ==> has_milestone(project@.milestones, #[trigger] keys@[j]),
            decreases keys@.len() - i,
        {
            if project.find_milestone(keys[i]).is_none() {
                return false;
            }
            i += 1;
        }
        true
    }

    /// Whether `who` can raise a dispute on the milestones `milestone_keys` of
    /// the project.
    pub fn check_dispute(
        &self,
        who: AccountId,
        project_key: ProjectKey,
        milestone_keys: &Vec<MilestoneKey>,
    ) -> (r: Result<(), Error>)
        ensures
            r == self@.dispute_outcome(who, project_key, milestone_keys@),
    {
        match self.projects.get(&project_key) {
            Some(project) => {
                if project.contribution(&who).is_none() {
                    Err(Error::OnlyContributorsCanVote)
                } else if !Self::has_all_milestones(project, milestone_keys) {
                    Err(Error::MilestoneDoesNotExist)
                } else if self.in_dispute.contains_key(&project_key) {
                    Err(Error::MilestonesAlreadyInDispute)
                } else {
                    Ok(())
                }
            },
            None => Err(Error::ProjectDoesNotExist),
        }
    }

    /// Books a dispute once the dispute engine has answered: with `raised` a
    /// refusal nothing is booked and the refusal is handed on; otherwise the
    /// milestones are recorded as under dispute.
    pub fn record_dispute(
        &mut self,
        who: AccountId,
        project_key: ProjectKey,
        milestone_keys: Vec<MilestoneKey>,
        raised: Result<(), crate::disputes::Error>,
    ) -> (r: Result<(), Error>)
        requires
            old(self).wf(),
        ensures
            final(self).wf(),
            final(self).cfg() == old(self).cfg(),
            final(self)@.succeeds(old(self)@, old(self).cfg()),
            r == (match old(self)@.dispute_outcome(who, project_key, milestone_keys@) {
                Err(e) => Err::<(), Error>(e),
                Ok(_) => match raised {
                    Err(e) => Err::<(), Error>(Error::Dispute(e)),
                    Ok(_) => Ok::<(), Error>(()),
                },
            }),
            r.is_ok() ==> final(self)@ == old(self)@.disputed(who, project_key, milestone_keys@),
            r.is_err() ==> final(self)@ == old(self)@,
    {
        proof {
            law_unchanged(self@, self.config);
            law_disputed(self@, self.config, who, project_key, milestone_keys@);
        }
        match self.check_dispute(who, project_key, &milestone_keys) {
            Ok(()) => {},
            Err(e) => {
                return Err(e);
            },
        }
        match raised {
            Ok(()) => {},
            Err(e) => {
                return Err(Error::Dispute(e));
            },
        }
        self.in_dispute.insert(project_key, milestone_keys);
        self.events.push(Event::DisputeRaised(who, project_key));
        assert(self@.in_dispute =~= old(self)@.in_dispute.insert(project_key, milestone_keys@));
        Ok(())
    }

    /// Raises a dispute on milestones of a project, to be decided by `jury`.
    /// Only a contributor may, on milestones that the project has, and only
    /// while the project is not under dispute already. The dispute is raised
    /// under the key of the project; whatever the dispute engine refuses is
    /// handed on, and nothing is recorded then.
    pub fn raise_dispute<R: DisputeRaiser>(
        &mut self,
        raiser: &mut R,
        who: AccountId,
        project_key: ProjectKey,
        milestone_keys: Vec<MilestoneKey>,
        jury: Vec<AccountId>,
    ) -> (r: Result<(), Error>)
        requires
            old(self).wf(),
            old(raiser).raiser_wf(),
        ensures
            final(self).wf(),
            final(self).cfg() == old(self).cfg(),
            final(self)@.succeeds(old(self)@, old(self).cfg()),
            final(raiser).raiser_wf(),
            match old(self)@.dispute_outcome(who, project_key, milestone_keys@) {
                Err(e) => r == Err::<(), Error>(e) && *final(raiser) == *old(raiser),
                Ok(_) => (r.is_ok() || r is Err && r->Err_0 is Dispute) && R::raised(
                    old(raiser),
                    final(raiser),
                    project_key,
                    who,
                    jury@,
                    milestone_keys@,
                    match r {
                        Err(Error::Dispute(e)) => Some(e),
                        _ => None::<crate::disputes::Error>,
                    },
                ),
            },
            r.is_ok() ==> final(self)@ == old(self)@.disputed(who, project_key, milestone_keys@),
            r.is_err() ==> final(self)@ == old(self)@,
    {
        proof {
            law_unchanged(self@, self.config);
        }
        match self.check_dispute(who, project_key, &milestone_keys) {
            Ok(()) => {},
            Err(e) => {
                return Err(e);
            },
        }
        let keys = copy_keys(&milestone_keys);
        let raised = raiser.raise_dispute(project_key, who, jury, keys);
        self.record_dispute(who, project_key, milestone_keys, raised)
    }

    /// Opens the vote on a milestone, on behalf of the account that signed.
    pub fn submit_milestone(
        &mut self,
        origin: Origin,
        project_key: ProjectKey,
        milestone_key: MilestoneKey,
    ) -> (r: Result<(), Error>)
        requires
            old(self).wf(),
        ensures
            final(self).wf(),
            final(self).cfg() == old(self).cfg(),
            final(self)@.succeeds(old(self)@, old(self).cfg()),
            r == (match origin {
                Origin::Signed(who) => old(self)@.submit_outcome(
                    old(self).cfg(),
                    who,
                    project_key,
                    milestone_key,
                ),
                _ => Err::<(), Error>(Error::BadOrigin),
            }),
            r.is_ok() ==> final(self)@ == old(self)@.submitted(
                old(self).cfg(),
                origin->Signed_0,
                project_key,
                milestone_key,
            ),
            r.is_err() ==> final(self)@ == old(self)@,
    {
        proof {
            law_unchanged(self@, self.config);
        }
        match ensure_signed(origin) {
            Ok(who) => self.new_milestone_submission(who, project_key, milestone_key),
            Err(_) => Err(Error::BadOrigin),
        }
    }

    /// Counts a vote on a milestone, on behalf of the account that signed.
    pub fn vote_on_milestone(
        &mut self,
        origin: Origin,
        project_key: ProjectKey,
        milestone_key: MilestoneKey,
        approve_milestone: bool,
    ) -> (r: Result<(), Error>)
        requires
            old(self).wf(),
        ensures
            final(self).wf(),
            final(self).cfg() == old(self).cfg(),
            final(self)@.succeeds(old(self)@, old(self).cfg()),
            r == (match origin {
                Origin::Signed(who) => old(self)@.vote_outcome(who, project_key, milestone_key),
                _ => Err::<(), Error>(Error::BadOrigin),
            }),
            r.is_ok() ==> final(self)@ == old(self)@.voted(
                old(self).cfg(),
                origin->Signed_0,
                project_key,
                milestone_key,
                approve_milestone,
            ),
            r.is_err() ==> final(self)@ == old(self)@,
    {
        proof {
            law_unchanged(self@, self.config);
        }
        match ensure_signed(origin) {
            Ok(who) => self.new_milestone_vote(who, project_key, milestone_key, approve_milestone),
            Err(_) => Err(Error::BadOrigin),
        }
    }

    /// Pays out what is unlocked, on behalf of the account that signed.
    pub fn withdraw<L: Ledger>(
        &mut self,
        journal: &mut Journal<L>,
        origin: Origin,
        project_key: ProjectKey,
    ) -> (r: Result<(), Error>)
        requires
            old(self).wf(),
        ensures
            final(self).wf(),
            final(self).cfg() == old(self).cfg(),
            final(self)@.succeeds(old(self)@, old(self).cfg()),
            match origin {
                Origin::Signed(who) => match old(self)@.withdrawal(
                    old(self).cfg(),
                    who,
                    project_key,
                ) {
                    Err(e) => r == Err::<(), Error>(e) && *final(journal) == *old(journal),
                    Ok(plan) => (r.is_ok() || r is Err && r->Err_0 is Ledger) && asked(
                        old(journal).calls@,
                        final(journal).calls@,
                        plan.calls(old(self).cfg()),
                        r.is_ok(),
                    ),
                },
                _ => r == Err::<(), Error>(Error::BadOrigin) && *final(journal) == *old(journal),
            },
            r.is_ok() ==> final(self)@ == old(self)@.withdrawn(
                origin->Signed_0,
                project_key,
                old(self)@.withdrawal(old(self).cfg(), origin->Signed_0, project_key).unwrap(),
            ),
            r.is_err() ==> final(self)@ == old(self)@,
    {
        proof {
            law_unchanged(self@, self.config);
        }
        match ensure_signed(origin) {
            Ok(who) => self.new_withdrawal(journal, who, project_key),
            Err(_) => Err(Error::BadOrigin),
        }
    }

    /// Raises a vote of no confidence, on behalf of the account that signed.
    pub fn raise_vote_of_no_confidence(&mut self, origin: Origin, project_key: ProjectKey) -> (r:
        Result<(), Error>)
        requires
            old(self).wf(),
        ensures
            final(self).wf(),
            final(self).cfg() == old(self).cfg(),
            final(self)@.succeeds(old(self)@, old(self).cfg()),
            r == (match origin {
                Origin::Signed(who) => old(self)@.no_confidence_outcome(
                    old(self).cfg(),
                    who,
                    project_key,
                ),
                _ => Err::<(), Error>(Error::BadOrigin),
            }),
            r.is_ok() ==> final(self)@ == old(self)@.no_confidence_raised(
                old(self).cfg(),
                origin->Signed_0,
                project_key,
            ),
            r.is_err() ==> final(self)@ == old(self)@,
    {
        proof {
            law_unchanged(self@, self.config);
        }
        match ensure_signed(origin) {
            Ok(who) => self.raise_no_confidence_round(who, project_key),
            Err(_) => Err(Error::BadOrigin),
        }
    }

    /// Counts a vote in a vote of no confidence, on behalf of the account that
    /// signed.
    pub fn vote_on_no_confidence_round(
        &mut self,
        origin: Origin,
        project_key: ProjectKey,
        is_yay: bool,
    ) -> (r: Result<(), Error>)
        requires
            old(self).wf(),
        ensures
            final(self).wf(),
            final(self).cfg() == old(self).cfg(),
            final(self)@.succeeds(old(self)@, old(self).cfg()),
            r == (match origin {
                Origin::Signed(who) => old(self)@.no_confidence_vote_outcome(who, project_key),
                _ => Err::<(), Error>(Error::BadOrigin),
            }),
            r.is_ok() ==> final(self)@ == old(self)@.no_confidence_voted(
                origin->Signed_0,
                project_key,
                is_yay,
            ),
            r.is_err() ==> final(self)@ == old(self)@,
    {
        proof {
            law_unchanged(self@, self.config);
        }
        match ensure_signed(origin) {
            Ok(who) => self.add_vote_no_confidence(who, project_key, is_yay),
            Err(_) => Err(Error::BadOrigin),
        }
    }

    /// Finalises a vote of no confidence, on behalf of the account that
    /// signed; the vote passes at the share of the raised funds that every vote
    /// needs to pass.
    pub fn finalise_no_confidence_round(&mut self, origin: Origin, project_key: ProjectKey) -> (r:
        Result<(), Error>)
        requires
            old(self).wf(),
        ensures
            final(self).wf(),
            final(self).cfg() == old(self).cfg(),
            final(self)@.succeeds(old(self)@, old(self).cfg()),
            r == (match origin {
                Origin::Signed(who) => old(self)@.no_confidence_finalise_outcome(
                    who,
                    project_key,
                    old(self).cfg().percent_required_for_vote_to_pass,
                ),
                _ => Err::<(), Error>(Error::BadOrigin),
            }),
            r.is_ok() ==> final(self)@ == old(self)@.no_confidence_finalised(
                origin->Signed_0,
                project_key,
            ),
            r.is_err() ==> final(self)@ == old(self)@,
    {
        proof {
            law_unchanged(self@, self.config);
        }
        match ensure_signed(origin) {
            Ok(who) => self.call_finalise_no_confidence_vote(
                who,
                project_key,
                self.config.percent_required_for_vote_to_pass,
            ),
            Err(_) => Err(Error::BadOrigin),
        }
    }
}

/// A copy of `keys`.
fn copy_keys(keys: &Vec<MilestoneKey>) -> (copy: Vec<MilestoneKey>)
    ensures
        copy@ == keys@,
{
    let mut copy: Vec<MilestoneKey> = Vec::new();
    let mut i: usize = 0;
    while i < keys.len()
        invariant
            i <= keys@.len(),
            copy@ == keys@.take(i as int),
        decreases keys@.len() - i,
    {
        copy.push(keys[i]);
        assert(keys@.take(i + 1) == keys@.take(i as int).push(keys@[i as int]));
        i += 1;
    }
    assert(keys@.take(i as int) == keys@);
    copy
}

impl DisputeHooks for Pallet {
    open spec fn hooks_wf(&self) -> bool {
        self.wf()
    }

    open spec fn completed(
        pre: &Self,
        post: &Self,
        key: DisputeKey,
        specifiers: Seq<u32>,
        result: DisputeResult,
    ) -> bool {
        &&& post.cfg() == pre.cfg()
        &&& post@ == pre@.dispute_completed(key, specifiers, result)
    }

    /// Handles the end of the dispute on the milestones `specifiers` of the
    /// project `dispute_key`: the project is no longer under dispute, and if
    /// the dispute was upheld its milestones are eligible for a refund. A
    /// dispute that was dismissed, or whose project is gone, changes nothing
    /// else.
    fn on_dispute_complete(
        &mut self,
        dispute_key: DisputeKey,
        specifiers: Vec<u32>,
        result: DisputeResult,
    ) -> (weight: Weight)
        ensures
            final(self)@.succeeds(old(self)@, old(self).cfg()),
            weight == (Weight { reads: 1, writes: 1 }),
    {
        proof {
            law_dispute_completed(self@, self.config, dispute_key, specifiers@, result);
        }
        self.in_dispute.remove(&dispute_key);
        assert(self@.in_dispute =~= old(self)@.in_dispute.remove(dispute_key));
        match result {
            DisputeResult::Success => {
                match self.projects.remove(&dispute_key) {
                    Some(mut project) => {
                        project.mark_refundable(&specifiers);
                        self.projects.insert(dispute_key, project);
                        assert(self@.projects =~= old(self)@.projects.insert(
                            dispute_key,
                            project@,
                        ));
                    },
                    None => {
                        assert(self@.projects =~= old(self)@.projects);
                    },
                }
            },
            DisputeResult::Failure => {},
        }
        Weight::reads_writes(1, 1)
    }
}

} // verus!
