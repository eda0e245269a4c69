use imbue_governance::disputes;
use imbue_governance::disputes::{CompletionLog, DisputeHooks, DisputeResult};
use imbue_governance::ledger::{Journal, Ledger, LedgerCall, LedgerError};
use imbue_governance::proposals::{
    Config, Contribution, Error, Event, IntoProposal, Pallet, ProposedMilestone, Release, RoundType,
    Vote, Withdrawal,
};
use imbue_governance::types::{AccountId, Balance, CurrencyId, FundingType, Origin, TreasuryOrigin};
use std::collections::HashMap;

fn account(tag: u8) -> AccountId {
    AccountId::new([tag; 32])
}

fn alice() -> AccountId {
    account(1)
}

fn bob() -> AccountId {
    account(2)
}

fn charlie() -> AccountId {
    account(3)
}

fn dave() -> AccountId {
    account(4)
}

fn fee_account() -> AccountId {
    account(200)
}

/// A ledger in memory: free and reserved balances by currency and account, and
/// a record of every transfer made.
struct Balances {
    free: HashMap<(CurrencyId, AccountId), Balance>,
    reserved: HashMap<(CurrencyId, AccountId), Balance>,
    transfers: Vec<(CurrencyId, AccountId, AccountId, Balance)>,
    refuse_transfers_to: Option<AccountId>,
}

impl Balances {
    fn new() -> Self {
        Balances {
            free: HashMap::new(),
            reserved: HashMap::new(),
            transfers: Vec::new(),
            refuse_transfers_to: None,
        }
    }

    fn deposit(&mut self, currency: CurrencyId, who: AccountId, amount: Balance) {
        *self.free.entry((currency, who)).or_insert(0) += amount;
    }

    fn free(&self, currency: CurrencyId, who: AccountId) -> Balance {
        *self.free.get(&(currency, who)).unwrap_or(&0)
    }

    fn reserved(&self, currency: CurrencyId, who: AccountId) -> Balance {
        *self.reserved.get(&(currency, who)).unwrap_or(&0)
    }
}

impl Ledger for Balances {
    fn reserve(
        &mut self,
        currency: CurrencyId,
        who: AccountId,
        amount: Balance,
    ) -> Result<(), LedgerError> {
        if self.free(currency, who) < amount {
            return Err(LedgerError::BalanceTooLow);
        }
        *self.free.entry((currency, who)).or_insert(0) -= amount;
        *self.reserved.entry((currency, who)).or_insert(0) += amount;
        Ok(())
    }

    fn unreserve(&mut self, currency: CurrencyId, who: AccountId, amount: Balance) -> Balance {
        let freed = amount.min(self.reserved(currency, who));
        *self.reserved.entry((currency, who)).or_insert(0) -= freed;
        *self.free.entry((currency, who)).or_insert(0) += freed;
        amount - freed
    }

    fn transfer(
        &mut self,
        currency: CurrencyId,
        from: AccountId,
        to: AccountId,
        amount: Balance,
    ) -> Result<(), LedgerError> {
        if self.refuse_transfers_to == Some(to) {
            return Err(LedgerError::LiquidityRestrictions);
        }
        if self.free(currency, from) < amount {
            return Err(LedgerError::BalanceTooLow);
        }
        *self.free.entry((currency, from)).or_insert(0) -= amount;
        *self.free.entry((currency, to)).or_insert(0) += amount;
        self.transfers.push((currency, from, to, amount));
        Ok(())
    }
}

const DEPOSIT: Balance = 10_000;

fn config() -> Config {
    Config {
        pallet_id: *b"imbgrant",
        milestone_voting_window: 100,
        no_confidence_time_limit: 200,
        percent_required_for_vote_to_pass: 75,
        maximum_contributors_per_project: 50,
        max_milestones_per_project: 10,
        max_projects_per_account: 2,
        project_storage_deposit: DEPOSIT,
        imbue_fee: 5,
        imbue_fee_account: fee_account(),
        expiring_project_rounds_per_block: 3,
    }
}

fn contribution(value: Balance) -> Contribution {
    Contribution { value, timestamp: 1 }
}

fn milestones(percentages: &[u32]) -> Vec<ProposedMilestone> {
    percentages.iter().map(|p| ProposedMilestone { percentage_to_unlock: *p }).collect()
}

/// An engine at block 1 and a ledger in which the contributors have reserved
/// their contributions and the initiator holds the storage deposit.
fn setup(contributions: &[(AccountId, Balance)]) -> (Pallet, Journal<Balances>) {
    let mut engine = Pallet::new(config());
    engine.set_block_number(1);
    let mut balances = Balances::new();
    balances.deposit(CurrencyId::Native, alice(), 5 * DEPOSIT);
    for (who, value) in contributions {
        balances.deposit(CurrencyId::KSM, *who, *value);
        balances.reserve(CurrencyId::KSM, *who, *value).unwrap();
    }
    (engine, Journal::new(balances))
}

fn create(
    engine: &mut Pallet,
    ledger: &mut Journal<Balances>,
    contributions: &[(AccountId, Balance)],
    percentages: &[u32],
) -> Result<(), Error> {
    engine.convert_to_proposal(
        ledger,
        CurrencyId::KSM,
        contributions.iter().map(|(who, value)| (*who, contribution(*value))).collect(),
        [7u8; 32],
        alice(),
        milestones(percentages),
        FundingType::Brief,
    )
}

fn two_contributors() -> Vec<(AccountId, Balance)> {
    vec![(bob(), 600_000), (charlie(), 400_000)]
}

#[test]
fn scenario_full_funding_vote_and_withdrawal() {
    let contributions = two_contributors();
    let (mut engine, mut ledger) = setup(&contributions);
    assert_eq!(create(&mut engine, &mut ledger, &contributions, &[100]), Ok(()));
    let custody = engine.project_account_id(1);
    assert_eq!(ledger.calls.len(), 5);
    assert_eq!(
        ledger.calls[0],
        LedgerCall::Reserve { currency: CurrencyId::Native, who: alice(), amount: DEPOSIT }
    );
    assert_eq!(
        ledger.calls[4],
        LedgerCall::Transfer {
            currency: CurrencyId::KSM,
            from: charlie(),
            to: custody,
            amount: 400_000
        }
    );
    assert_eq!(engine.project_count(), 1);
    assert_eq!(ledger.ledger.free(CurrencyId::KSM, custody), 1_000_000);
    assert_eq!(ledger.ledger.reserved(CurrencyId::Native, alice()), DEPOSIT);
    assert_eq!(
        engine.events().last(),
        Some(&Event::ProjectCreated(alice(), [7u8; 32], 1, 1_000_000, CurrencyId::KSM, custody))
    );
    let project = engine.projects(1).unwrap();
    assert_eq!(project.raised_funds, 1_000_000);
    assert_eq!(project.withdrawn_funds, 0);
    assert_eq!(project.milestones.len(), 1);
    assert_eq!(project.milestones[0].milestone_key, 0);
    assert_eq!(project.milestones[0].project_key, 1);
    assert!(!project.milestones[0].is_approved);

    assert_eq!(engine.submit_milestone(Origin::signed(alice()), 1, 0), Ok(()));
    assert_eq!(engine.rounds(RoundType::VotingRound, 1, 0).unwrap().expires_at, 101);
    assert_eq!(engine.expiring_at(101), 1);

    // 600_000 is short of 75% of 1_000_000: the round stays open
    assert_eq!(engine.vote_on_milestone(Origin::signed(bob()), 1, 0, true), Ok(()));
    let round = engine.rounds(RoundType::VotingRound, 1, 0).unwrap();
    assert_eq!(round.vote, Vote { yay: 600_000, nay: 0, is_approved: false });
    assert!(!engine.projects(1).unwrap().milestones[0].is_approved);
    assert_eq!(
        engine.withdraw(&mut ledger, Origin::signed(alice()), 1),
        Err(Error::NoAvailableFundsToWithdraw)
    );

    // 1_000_000 reaches it: the milestone is approved and the round closes
    assert_eq!(engine.vote_on_milestone(Origin::signed(charlie()), 1, 0, true), Ok(()));
    assert!(engine.projects(1).unwrap().milestones[0].is_approved);
    assert!(engine.rounds(RoundType::VotingRound, 1, 0).is_none());
    assert_eq!(engine.expiring_at(101), 0);
    let events = engine.events();
    assert_eq!(
        &events[events.len() - 2..],
        &[
            Event::MilestoneApproved(charlie(), 1, 0, 1),
            Event::VoteSubmitted(charlie(), 1, 0, true, 1),
        ]
    );
    assert_eq!(
        engine.vote_on_milestone(Origin::signed(bob()), 1, 0, true),
        Err(Error::VotingRoundNotStarted)
    );
    assert_eq!(
        engine.submit_milestone(Origin::signed(alice()), 1, 0),
        Err(Error::MilestoneAlreadyApproved)
    );

    assert_eq!(
        engine.plan_withdrawal(alice(), 1),
        Ok(Withdrawal {
            currency_id: CurrencyId::KSM,
            custody,
            fee_account: fee_account(),
            initiator: alice(),
            fee: 50_000,
            payout: 950_000,
            amount: 1_000_000,
            completes: true,
        })
    );
    assert_eq!(engine.withdraw(&mut ledger, Origin::signed(alice()), 1), Ok(()));
    assert_eq!(
        ledger.calls[ledger.calls.len() - 3..],
        [
            LedgerCall::Transfer {
                currency: CurrencyId::KSM,
                from: custody,
                to: fee_account(),
                amount: 50_000
            },
            LedgerCall::Transfer {
                currency: CurrencyId::KSM,
                from: custody,
                to: alice(),
                amount: 950_000
            },
            LedgerCall::Unreserve { currency: CurrencyId::Native, who: alice(), amount: DEPOSIT },
        ]
    );
    assert_eq!(ledger.ledger.free(CurrencyId::KSM, alice()), 950_000);
    assert_eq!(ledger.ledger.free(CurrencyId::KSM, fee_account()), 50_000);
    assert_eq!(ledger.ledger.free(CurrencyId::KSM, custody), 0);
    assert_eq!(ledger.ledger.reserved(CurrencyId::Native, alice()), 0);
    assert_eq!(
        engine.events().last(),
        Some(&Event::ProjectFundsWithdrawn(alice(), 1, 950_000, CurrencyId::KSM))
    );
    assert!(engine.projects(1).is_none());
    assert_eq!(engine.completed_projects(), &vec![(alice(), 1)]);
    assert_eq!(
        engine.withdraw(&mut ledger, Origin::signed(alice()), 1),
        Err(Error::ProjectDoesNotExist)
    );
}

#[test]
fn scenario_dismissed_dispute_leaves_milestone_unflagged() {
    let contributions = two_contributors();
    let (mut engine, mut ledger) = setup(&contributions);
    assert_eq!(create(&mut engine, &mut ledger, &contributions, &[10, 10, 10, 10, 10, 50]), Ok(()));
    let mut jurors = disputes::Pallet::new(disputes::Config {
        max_jury_size: 5,
        max_specifics: 10,
        voting_time_limit: 10,
        max_disputes_per_block: 1000,
    });
    let j1 = account(11);
    let j2 = account(12);
    assert_eq!(engine.raise_dispute(&mut jurors, bob(), 1, vec![5], vec![j1, j2]), Ok(()));
    assert_eq!(engine.projects_in_dispute(1), Some(&vec![5]));
    assert_eq!(jurors.disputes(1).unwrap().specifiers, vec![5]);
    assert_eq!(jurors.disputes(1).unwrap().raised_by, bob());
    assert_eq!(engine.events().last(), Some(&Event::DisputeRaised(bob(), 1)));

    assert_eq!(jurors.vote_on_dispute(&mut engine, Origin::signed(j1), 1, false), Ok(()));
    assert!(jurors.disputes(1).is_some());
    assert_eq!(jurors.vote_on_dispute(&mut engine, Origin::signed(j2), 1, false), Ok(()));
    assert!(jurors.disputes(1).is_none());
    let project = engine.projects(1).unwrap();
    assert!(project.milestones.iter().all(|m| !m.can_refund));
    assert!(project.milestones.iter().all(|m| !m.is_approved));
    assert_eq!(engine.projects_in_dispute(1), None);
}

#[test]
fn upheld_dispute_flags_the_disputed_milestones_only() {
    let contributions = two_contributors();
    let (mut engine, mut ledger) = setup(&contributions);
    assert_eq!(create(&mut engine, &mut ledger, &contributions, &[20, 30, 50]), Ok(()));
    let mut jurors = disputes::Pallet::new(disputes::Config {
        max_jury_size: 5,
        max_specifics: 10,
        voting_time_limit: 10,
        max_disputes_per_block: 1000,
    });
    let j1 = account(11);
    assert_eq!(engine.raise_dispute(&mut jurors, charlie(), 1, vec![0, 2], vec![j1]), Ok(()));
    assert_eq!(jurors.vote_on_dispute(&mut engine, Origin::signed(j1), 1, true), Ok(()));
    let flags: Vec<bool> =
        engine.projects(1).unwrap().milestones.iter().map(|m| m.can_refund).collect();
    assert_eq!(flags, vec![true, false, true]);
    let project = engine.projects(1).unwrap();
    assert!(project.milestones.iter().all(|m| !m.is_approved && !m.is_refunded));
    assert_eq!(project.withdrawn_funds, 0);
    assert_eq!(engine.projects_in_dispute(1), None);
}

#[test]
fn hook_for_a_missing_project_is_a_no_op() {
    let contributions = two_contributors();
    let (mut engine, mut ledger) = setup(&contributions);
    assert_eq!(create(&mut engine, &mut ledger, &contributions, &[100]), Ok(()));
    let events_before = engine.events().len();
    let weight = engine.on_dispute_complete(9, vec![0, 1], DisputeResult::Success);
    assert_eq!((weight.reads, weight.writes), (1, 1));
    assert_eq!(engine.events().len(), events_before);
    assert!(engine.projects(9).is_none());
    assert!(!engine.projects(1).unwrap().milestones[0].can_refund);
    engine.on_dispute_complete(1, vec![0], DisputeResult::Failure);
    assert!(!engine.projects(1).unwrap().milestones[0].can_refund);
    // a milestone that the project does not have is passed over
    engine.on_dispute_complete(1, vec![4], DisputeResult::Success);
    assert!(!engine.projects(1).unwrap().milestones[0].can_refund);
    engine.on_dispute_complete(1, vec![4, 0], DisputeResult::Success);
    assert!(engine.projects(1).unwrap().milestones[0].can_refund);
}

#[test]
fn votes_on_a_disputed_milestone_are_refused() {
    let contributions = two_contributors();
    let (mut engine, mut ledger) = setup(&contributions);
    assert_eq!(create(&mut engine, &mut ledger, &contributions, &[50, 50]), Ok(()));
    let mut log = CompletionLog::new();
    let mut jurors = disputes::Pallet::new(disputes::Config {
        max_jury_size: 5,
        max_specifics: 10,
        voting_time_limit: 10,
        max_disputes_per_block: 1000,
    });
    assert_eq!(engine.submit_milestone(Origin::signed(alice()), 1, 0), Ok(()));
    assert_eq!(engine.submit_milestone(Origin::signed(alice()), 1, 1), Ok(()));
    assert_eq!(
        engine.raise_dispute(&mut jurors, dave(), 1, vec![0], vec![account(11)]),
        Err(Error::OnlyContributorsCanVote)
    );
    assert_eq!(
        engine.raise_dispute(&mut jurors, bob(), 2, vec![0], vec![account(11)]),
        Err(Error::ProjectDoesNotExist)
    );
    assert_eq!(
        engine.raise_dispute(&mut jurors, bob(), 1, vec![0, 2], vec![account(11)]),
        Err(Error::MilestoneDoesNotExist)
    );
    assert!(jurors.disputes(1).is_none());
    assert_eq!(engine.raise_dispute(&mut jurors, bob(), 1, vec![0], vec![account(11)]), Ok(()));
    assert_eq!(
        engine.raise_dispute(&mut jurors, charlie(), 1, vec![1], vec![account(11)]),
        Err(Error::MilestonesAlreadyInDispute)
    );
    assert_eq!(
        engine.vote_on_milestone(Origin::signed(bob()), 1, 0, true),
        Err(Error::MilestonesAlreadyInDispute)
    );
    assert_eq!(engine.vote_on_milestone(Origin::signed(bob()), 1, 1, true), Ok(()));
    assert_eq!(jurors.force_fail_dispute(&mut log, Origin::root(), 1), Ok(()));
    // the dispute engine told the log, not the project engine
    assert_eq!(engine.projects_in_dispute(1), Some(&vec![0]));
    engine.on_dispute_complete(1, vec![0], DisputeResult::Failure);
    assert_eq!(engine.vote_on_milestone(Origin::signed(bob()), 1, 0, true), Ok(()));
}

#[test]
fn dispute_refused_by_the_dispute_engine_is_not_recorded() {
    let contributions = two_contributors();
    let (mut engine, mut ledger) = setup(&contributions);
    assert_eq!(create(&mut engine, &mut ledger, &contributions, &[100]), Ok(()));
    let mut jurors = disputes::Pallet::new(disputes::Config {
        max_jury_size: 1,
        max_specifics: 10,
        voting_time_limit: 10,
        max_disputes_per_block: 1000,
    });
    let events_before = engine.events().len();
    assert_eq!(
        engine.raise_dispute(&mut jurors, bob(), 1, vec![0], vec![account(11), account(12)]),
        Err(Error::Dispute(disputes::Error::TooManyJurors))
    );
    assert_eq!(engine.projects_in_dispute(1), None);
    assert_eq!(engine.events().len(), events_before);
    assert_eq!(
        engine.record_dispute(bob(), 1, vec![0], Err(disputes::Error::DisputeAlreadyExists)),
        Err(Error::Dispute(disputes::Error::DisputeAlreadyExists))
    );
    assert_eq!(engine.record_dispute(bob(), 1, vec![0], Ok(())), Ok(()));
    assert_eq!(engine.projects_in_dispute(1), Some(&vec![0]));
}

#[test]
fn submit_milestone_errors() {
    let contributions = two_contributors();
    let (mut engine, mut ledger) = setup(&contributions);
    assert_eq!(create(&mut engine, &mut ledger, &contributions, &[25, 25, 25, 25]), Ok(()));
    assert_eq!(engine.submit_milestone(Origin::Unsigned, 1, 0), Err(Error::BadOrigin));
    assert_eq!(
        engine.submit_milestone(Origin::signed(alice()), 2, 0),
        Err(Error::ProjectDoesNotExist)
    );
    assert_eq!(
        engine.submit_milestone(Origin::signed(bob()), 1, 0),
        Err(Error::UserIsNotInitiator)
    );
    assert_eq!(
        engine.submit_milestone(Origin::signed(alice()), 1, 4),
        Err(Error::MilestoneDoesNotExist)
    );
    assert_eq!(engine.events().len(), 1);
    assert_eq!(engine.submit_milestone(Origin::signed(alice()), 1, 0), Ok(()));
    let events = engine.events();
    assert_eq!(
        &events[events.len() - 2..],
        &[Event::MilestoneSubmitted(alice(), 1, 0), Event::VotingRoundCreated(1)]
    );
    assert_eq!(engine.submit_milestone(Origin::signed(alice()), 1, 0), Err(Error::RoundStarted));
    assert_eq!(engine.submit_milestone(Origin::signed(alice()), 1, 1), Ok(()));
    assert_eq!(engine.submit_milestone(Origin::signed(alice()), 1, 2), Ok(()));
    // the block at which the rounds close takes three of them
    assert_eq!(engine.expiring_at(101), 3);
    assert_eq!(engine.submit_milestone(Origin::signed(alice()), 1, 3), Err(Error::Overflow));
    assert!(engine.rounds(RoundType::VotingRound, 1, 3).is_none());
    engine.set_block_number(2);
    assert_eq!(engine.submit_milestone(Origin::signed(alice()), 1, 3), Ok(()));
    assert_eq!(engine.expiring_at(102), 1);
}

#[test]
fn vote_on_milestone_errors() {
    let contributions = two_contributors();
    let (mut engine, mut ledger) = setup(&contributions);
    assert_eq!(create(&mut engine, &mut ledger, &contributions, &[100]), Ok(()));
    assert_eq!(engine.vote_on_milestone(Origin::root(), 1, 0, true), Err(Error::BadOrigin));
    assert_eq!(
        engine.vote_on_milestone(Origin::signed(bob()), 2, 0, true),
        Err(Error::ProjectDoesNotExist)
    );
    assert_eq!(
        engine.vote_on_milestone(Origin::signed(bob()), 1, 0, true),
        Err(Error::VotingRoundNotStarted)
    );
    assert_eq!(engine.submit_milestone(Origin::signed(alice()), 1, 0), Ok(()));
    assert_eq!(
        engine.vote_on_milestone(Origin::signed(dave()), 1, 0, true),
        Err(Error::OnlyContributorsCanVote)
    );
    assert_eq!(
        engine.rounds(RoundType::VotingRound, 1, 0).unwrap().vote,
        Vote { yay: 0, nay: 0, is_approved: false }
    );
}

#[test]
fn a_changed_vote_moves_its_weight() {
    let contributions = vec![(bob(), 600_000), (charlie(), 300_000), (dave(), 100_000)];
    let (mut engine, mut ledger) = setup(&contributions);
    assert_eq!(create(&mut engine, &mut ledger, &contributions, &[100]), Ok(()));
    assert_eq!(engine.submit_milestone(Origin::signed(alice()), 1, 0), Ok(()));
    let tally = |engine: &Pallet| {
        let vote = engine.rounds(RoundType::VotingRound, 1, 0).unwrap().vote;
        (vote.yay, vote.nay)
    };
    assert_eq!(engine.vote_on_milestone(Origin::signed(bob()), 1, 0, true), Ok(()));
    assert_eq!(tally(&engine), (600_000, 0));
    // the same vote again is not counted again
    assert_eq!(engine.vote_on_milestone(Origin::signed(bob()), 1, 0, true), Ok(()));
    assert_eq!(tally(&engine), (600_000, 0));
    assert_eq!(engine.vote_on_milestone(Origin::signed(charlie()), 1, 0, false), Ok(()));
    assert_eq!(tally(&engine), (600_000, 300_000));
    assert_eq!(engine.vote_on_milestone(Origin::signed(bob()), 1, 0, false), Ok(()));
    // 900_000 against reaches the threshold of 750_000: rejected, the round closes
    assert!(engine.rounds(RoundType::VotingRound, 1, 0).is_none());
    assert!(!engine.projects(1).unwrap().milestones[0].is_approved);
    let events = engine.events();
    assert_eq!(
        &events[events.len() - 2..],
        &[Event::MilestoneRejected(1, 0), Event::VoteSubmitted(bob(), 1, 0, false, 1)]
    );
    // a rejected milestone can be submitted again, and starts from nothing
    assert_eq!(engine.submit_milestone(Origin::signed(alice()), 1, 0), Ok(()));
    assert_eq!(tally(&engine), (0, 0));
    assert_eq!(engine.vote_on_milestone(Origin::signed(charlie()), 1, 0, false), Ok(()));
    assert_eq!(engine.vote_on_milestone(Origin::signed(charlie()), 1, 0, true), Ok(()));
    assert_eq!(tally(&engine), (300_000, 0));
    assert_eq!(
        engine.rounds(RoundType::VotingRound, 1, 0).unwrap().ballots,
        vec![(charlie(), true)]
    );
}

#[test]
fn threshold_is_met_exactly_at_the_required_share() {
    let contributions = vec![(bob(), 749_999), (charlie(), 1), (dave(), 250_000)];
    let (mut engine, mut ledger) = setup(&contributions);
    assert_eq!(create(&mut engine, &mut ledger, &contributions, &[100]), Ok(()));
    assert_eq!(engine.submit_milestone(Origin::signed(alice()), 1, 0), Ok(()));
    assert_eq!(engine.vote_on_milestone(Origin::signed(bob()), 1, 0, true), Ok(()));
    assert!(engine.rounds(RoundType::VotingRound, 1, 0).is_some());
    assert_eq!(engine.vote_on_milestone(Origin::signed(charlie()), 1, 0, true), Ok(()));
    assert!(engine.rounds(RoundType::VotingRound, 1, 0).is_none());
    assert!(engine.projects(1).unwrap().milestones[0].is_approved);
}

#[test]
fn partial_withdrawals_add_up_and_round_down() {
    let contributions = vec![(bob(), 1001)];
    let (mut engine, mut ledger) = setup(&contributions);
    assert_eq!(create(&mut engine, &mut ledger, &contributions, &[33, 33, 34]), Ok(()));
    let custody = engine.project_account_id(1);
    for key in 0..2 {
        assert_eq!(engine.submit_milestone(Origin::signed(alice()), 1, key), Ok(()));
        assert_eq!(engine.vote_on_milestone(Origin::signed(bob()), 1, key, true), Ok(()));
    }
    // two shares of 33% of 1001, each rounded down to 330
    let plan = engine.plan_withdrawal(alice(), 1).unwrap();
    assert_eq!((plan.amount, plan.fee, plan.payout, plan.completes), (660, 33, 627, false));
    assert_eq!(engine.withdraw(&mut ledger, Origin::signed(alice()), 1), Ok(()));
    assert_eq!(engine.projects(1).unwrap().withdrawn_funds, 660);
    assert_eq!(ledger.ledger.free(CurrencyId::KSM, alice()), 627);
    assert_eq!(ledger.ledger.free(CurrencyId::KSM, fee_account()), 33);
    assert_eq!(
        ledger.ledger.transfers[ledger.ledger.transfers.len() - 2..],
        [
            (CurrencyId::KSM, custody, fee_account(), 33),
            (CurrencyId::KSM, custody, alice(), 627),
        ]
    );
    assert_eq!(
        engine.withdraw(&mut ledger, Origin::signed(alice()), 1),
        Err(Error::NoAvailableFundsToWithdraw)
    );
    assert_eq!(engine.submit_milestone(Origin::signed(alice()), 1, 2), Ok(()));
    assert_eq!(engine.vote_on_milestone(Origin::signed(bob()), 1, 2, true), Ok(()));
    // 34% of 1001 is 340: 1000 are unlocked, one unit never is
    let plan = engine.plan_withdrawal(alice(), 1).unwrap();
    assert_eq!((plan.amount, plan.fee, plan.payout, plan.completes), (340, 17, 323, false));
    assert_eq!(engine.withdraw(&mut ledger, Origin::signed(alice()), 1), Ok(()));
    let project = engine.projects(1).unwrap();
    assert_eq!((project.withdrawn_funds, project.raised_funds), (1000, 1001));
    assert_eq!(project.unlocked_funds(), 1000);
    assert_eq!(ledger.ledger.reserved(CurrencyId::Native, alice()), DEPOSIT);
}

#[test]
fn percentages_beyond_the_whole_unlock_no_more_than_was_raised() {
    let contributions = vec![(bob(), 1000)];
    let (mut engine, mut ledger) = setup(&contributions);
    assert_eq!(create(&mut engine, &mut ledger, &contributions, &[80, 250]), Ok(()));
    for key in 0..2 {
        assert_eq!(engine.submit_milestone(Origin::signed(alice()), 1, key), Ok(()));
        assert_eq!(engine.vote_on_milestone(Origin::signed(bob()), 1, key, true), Ok(()));
    }
    assert_eq!(engine.projects(1).unwrap().unlocked_funds(), 1000);
    let plan = engine.plan_withdrawal(alice(), 1).unwrap();
    assert_eq!((plan.amount, plan.completes), (1000, true));
}

#[test]
fn withdraw_errors_and_refused_transfers() {
    let contributions = two_contributors();
    let (mut engine, mut ledger) = setup(&contributions);
    assert_eq!(create(&mut engine, &mut ledger, &contributions, &[40, 60]), Ok(()));
    assert_eq!(engine.submit_milestone(Origin::signed(alice()), 1, 0), Ok(()));
    assert_eq!(engine.vote_on_milestone(Origin::signed(bob()), 1, 0, true), Ok(()));
    assert_eq!(engine.vote_on_milestone(Origin::signed(charlie()), 1, 0, true), Ok(()));
    assert_eq!(engine.withdraw(&mut ledger, Origin::Unsigned, 1), Err(Error::BadOrigin));
    assert_eq!(
        engine.withdraw(&mut ledger, Origin::signed(alice()), 3),
        Err(Error::ProjectDoesNotExist)
    );
    assert_eq!(
        engine.withdraw(&mut ledger, Origin::signed(bob()), 1),
        Err(Error::UserIsNotInitiator)
    );
    let transfers_before = ledger.ledger.transfers.len();
    let events_before = engine.events().len();
    ledger.ledger.refuse_transfers_to = Some(alice());
    assert_eq!(
        engine.withdraw(&mut ledger, Origin::signed(alice()), 1),
        Err(Error::Ledger(LedgerError::LiquidityRestrictions))
    );
    // the fee went through on the ledger; the engine booked nothing
    assert_eq!(ledger.ledger.transfers.len(), transfers_before + 1);
    assert_eq!(engine.projects(1).unwrap().withdrawn_funds, 0);
    assert_eq!(engine.events().len(), events_before);
    ledger.ledger.refuse_transfers_to = Some(fee_account());
    assert_eq!(
        engine.withdraw(&mut ledger, Origin::signed(alice()), 1),
        Err(Error::Ledger(LedgerError::LiquidityRestrictions))
    );
    assert_eq!(
        engine.settle_withdrawal(alice(), 1, Err(LedgerError::BalanceTooLow)),
        Err(Error::Ledger(LedgerError::BalanceTooLow))
    );
    assert_eq!(engine.projects(1).unwrap().withdrawn_funds, 0);
    let plan = engine.settle_withdrawal(alice(), 1, Ok(())).unwrap();
    assert_eq!((plan.amount, plan.fee, plan.payout), (400_000, 20_000, 380_000));
    assert_eq!(engine.projects(1).unwrap().withdrawn_funds, 400_000);
}

#[test]
fn completed_projects_are_recorded_up_to_the_limit() {
    let contributions = vec![(bob(), 100)];
    let (mut engine, mut ledger) = setup(&contributions);
    ledger.ledger.deposit(CurrencyId::KSM, bob(), 200);
    ledger.ledger.reserve(CurrencyId::KSM, bob(), 200).unwrap();
    for key in 1..=3 {
        assert_eq!(create(&mut engine, &mut ledger, &contributions, &[100]), Ok(()));
        assert_eq!(engine.submit_milestone(Origin::signed(alice()), key, 0), Ok(()));
        assert_eq!(engine.vote_on_milestone(Origin::signed(bob()), key, 0, true), Ok(()));
    }
    assert_eq!(engine.withdraw(&mut ledger, Origin::signed(alice()), 1), Ok(()));
    assert_eq!(engine.withdraw(&mut ledger, Origin::signed(alice()), 2), Ok(()));
    let transfers_before = ledger.ledger.transfers.len();
    assert_eq!(
        engine.withdraw(&mut ledger, Origin::signed(alice()), 3),
        Err(Error::TooManyProjects)
    );
    assert_eq!(ledger.ledger.transfers.len(), transfers_before);
    assert!(engine.projects(3).is_some());
    assert_eq!(engine.completed_projects(), &vec![(alice(), 1), (alice(), 2)]);
}

#[test]
fn conversion_errors() {
    let contributions = two_contributors();
    let (mut engine, mut ledger) = setup(&contributions);
    assert_eq!(
        create(&mut engine, &mut ledger, &contributions, &[10; 11]),
        Err(Error::TooManyMilestones)
    );
    let twice = vec![(bob(), 1), (charlie(), 1), (bob(), 1)];
    assert_eq!(create(&mut engine, &mut ledger, &twice, &[100]), Err(Error::InvalidParam));
    let crowd: Vec<(AccountId, Balance)> = (0..51).map(|i| (account(i), 1)).collect();
    assert_eq!(create(&mut engine, &mut ledger, &crowd, &[100]), Err(Error::TooManyContributions));
    assert_eq!(engine.project_count(), 0);
    assert!(engine.events().is_empty());
    assert!(ledger.ledger.transfers.is_empty());
    assert_eq!(ledger.ledger.reserved(CurrencyId::Native, alice()), 0);
    // a contributor who has not the funds: the ledger refuses, nothing is created
    let short = vec![(bob(), 600_000), (dave(), 5)];
    assert_eq!(
        create(&mut engine, &mut ledger, &short, &[100]),
        Err(Error::Ledger(LedgerError::BalanceTooLow))
    );
    assert_eq!(engine.project_count(), 0);
    assert!(engine.projects(1).is_none());
    assert_eq!(
        engine.create_project(
            CurrencyId::KSM,
            vec![(bob(), contribution(5))],
            [0u8; 32],
            alice(),
            milestones(&[100]),
            FundingType::Proposal,
            Err(LedgerError::Other),
        ),
        Err(Error::Ledger(LedgerError::Other))
    );
    assert_eq!(
        engine.check_conversion(&vec![(bob(), contribution(5))], &milestones(&[100])),
        Ok(())
    );
}

#[test]
fn conversion_without_the_storage_deposit_is_refused() {
    let contributions = two_contributors();
    let (mut engine, mut ledger) = setup(&contributions);
    let result = engine.convert_to_proposal(
        &mut ledger,
        CurrencyId::KSM,
        vec![(bob(), contribution(600_000))],
        [7u8; 32],
        dave(),
        milestones(&[100]),
        FundingType::Proposal,
    );
    assert_eq!(result, Err(Error::Ledger(LedgerError::BalanceTooLow)));
    assert!(ledger.ledger.transfers.is_empty());
    assert_eq!(engine.project_count(), 0);
}

#[test]
fn treasury_projects_wait_for_their_funds() {
    let (mut engine, mut ledger) = setup(&[]);
    let result = <Pallet as IntoProposal>::convert_to_proposal(
        &mut engine,
        &mut ledger,
        CurrencyId::KSM,
        vec![(bob(), contribution(10_000))],
        [9u8; 32],
        alice(),
        milestones(&[50, 50]),
        FundingType::Treasury(TreasuryOrigin::Kusama),
    );
    assert_eq!(result, Ok(()));
    assert!(ledger.ledger.transfers.is_empty());
    assert_eq!(ledger.ledger.reserved(CurrencyId::Native, alice()), DEPOSIT);
    let project = engine.projects(1).unwrap();
    assert_eq!(project.raised_funds, 10_000);
    assert_eq!(project.funding_type, FundingType::Treasury(TreasuryOrigin::Kusama));
    assert_eq!(project.agreement_hash, [9u8; 32]);
    assert_eq!(project.created_on, 1);
    assert_eq!(project.initiator, alice());
    assert!(!project.cancelled);
    assert_eq!(
        Pallet::fund_project(
            &mut ledger,
            FundingType::Treasury(TreasuryOrigin::Imbue),
            &vec![(bob(), contribution(10_000))],
            engine.project_account_id(1),
            CurrencyId::KSM,
        ),
        Ok(false)
    );
}

#[test]
fn raised_funds_saturate() {
    let (mut engine, mut ledger) = setup(&[]);
    let result = engine.convert_to_proposal(
        &mut ledger,
        CurrencyId::KSM,
        vec![(bob(), contribution(u128::MAX)), (charlie(), contribution(7))],
        [9u8; 32],
        alice(),
        milestones(&[100]),
        FundingType::Treasury(TreasuryOrigin::Karura),
    );
    assert_eq!(result, Ok(()));
    assert_eq!(engine.projects(1).unwrap().raised_funds, u128::MAX);
}

#[test]
fn milestones_are_keyed_from_zero() {
    let engine = Pallet::new(config());
    let converted = engine.try_convert_to_milestones(&milestones(&[10, 20, 70]), 4).unwrap();
    let keys: Vec<(u32, u32, u32)> = converted
        .iter()
        .map(|m| (m.project_key, m.milestone_key, m.percentage_to_unlock))
        .collect();
    assert_eq!(keys, vec![(4, 0, 10), (4, 1, 20), (4, 2, 70)]);
    assert!(converted.iter().all(|m| !m.is_approved && !m.can_refund && !m.is_refunded));
    assert_eq!(
        engine.try_convert_to_milestones(&milestones(&[10; 11]), 4),
        Err(Error::TooManyMilestones)
    );
    assert_eq!(engine.try_convert_to_milestones(&milestones(&[10; 10]), 4).unwrap().len(), 10);
}

#[test]
fn vote_of_no_confidence() {
    let contributions = vec![(bob(), 600_000), (charlie(), 300_000), (dave(), 100_000)];
    let (mut engine, mut ledger) = setup(&contributions);
    assert_eq!(create(&mut engine, &mut ledger, &contributions, &[100]), Ok(()));
    assert_eq!(engine.raise_vote_of_no_confidence(Origin::Unsigned, 1), Err(Error::BadOrigin));
    assert_eq!(
        engine.raise_vote_of_no_confidence(Origin::signed(bob()), 2),
        Err(Error::ProjectDoesNotExist)
    );
    assert_eq!(
        engine.raise_vote_of_no_confidence(Origin::signed(alice()), 1),
        Err(Error::OnlyContributorsCanVote)
    );
    assert_eq!(
        engine.vote_on_no_confidence_round(Origin::signed(bob()), 1, false),
        Err(Error::ProjectNotInRound)
    );
    assert_eq!(
        engine.finalise_no_confidence_round(Origin::signed(bob()), 1),
        Err(Error::ProjectNotInRound)
    );
    assert_eq!(engine.raise_vote_of_no_confidence(Origin::signed(charlie()), 1), Ok(()));
    assert_eq!(engine.events().last(), Some(&Event::NoConfidenceRoundCreated(charlie(), 1)));
    let round = engine.rounds(RoundType::VoteOfNoConfidence, 1, 0).unwrap();
    assert_eq!(round.vote, Vote { yay: 0, nay: 300_000, is_approved: false });
    assert_eq!(round.expires_at, 201);
    assert_eq!(round.ballots, vec![(charlie(), false)]);
    assert_eq!(
        engine.raise_vote_of_no_confidence(Origin::signed(bob()), 1),
        Err(Error::RoundStarted)
    );
    assert_eq!(
        engine.vote_on_no_confidence_round(Origin::signed(alice()), 1, true),
        Err(Error::OnlyContributorsCanVote)
    );
    assert_eq!(engine.vote_on_no_confidence_round(Origin::signed(dave()), 1, true), Ok(()));
    assert_eq!(engine.events().last(), Some(&Event::NoConfidenceRoundVotedUpon(dave(), 1)));
    assert_eq!(
        engine.finalise_no_confidence_round(Origin::signed(bob()), 1),
        Err(Error::VoteThresholdNotMet)
    );
    assert_eq!(
        engine.finalise_no_confidence_round(Origin::signed(alice()), 1),
        Err(Error::OnlyContributorsCanVote)
    );
    assert_eq!(engine.vote_on_no_confidence_round(Origin::signed(bob()), 1, false), Ok(()));
    let round = engine.rounds(RoundType::VoteOfNoConfidence, 1, 0).unwrap();
    assert_eq!((round.vote.yay, round.vote.nay), (100_000, 900_000));
    // against the initiator: 900_000 of 1_000_000, at 75% required
    assert_eq!(engine.finalise_no_confidence_round(Origin::signed(dave()), 1), Ok(()));
    assert_eq!(engine.events().last(), Some(&Event::NoConfidenceRoundFinalised(dave(), 1)));
    assert!(engine.rounds(RoundType::VoteOfNoConfidence, 1, 0).is_none());
    assert_eq!(engine.expiring_at(201), 0);
    // the project is cancelled: it stays, and pays out nothing more
    let project = engine.projects(1).unwrap();
    assert!(project.cancelled);
    assert_eq!((project.raised_funds, project.withdrawn_funds), (1_000_000, 0));
    assert_eq!(
        engine.withdraw(&mut ledger, Origin::signed(alice()), 1),
        Err(Error::ProjectWithdrawn)
    );
    assert_eq!(engine.plan_withdrawal(bob(), 1), Err(Error::ProjectWithdrawn));
    assert!(ledger.ledger.transfers.len() == 3);
}

#[test]
fn finalise_milestone_voting_needs_the_threshold() {
    let contributions = two_contributors();
    let (mut engine, mut ledger) = setup(&contributions);
    assert_eq!(create(&mut engine, &mut ledger, &contributions, &[100]), Ok(()));
    assert_eq!(engine.finalise_milestone_voting(Origin::Unsigned, 1, 0), Err(Error::BadOrigin));
    assert_eq!(
        engine.finalise_milestone_voting(Origin::signed(alice()), 2, 0),
        Err(Error::ProjectDoesNotExist)
    );
    assert_eq!(
        engine.finalise_milestone_voting(Origin::signed(bob()), 1, 0),
        Err(Error::UserIsNotInitiator)
    );
    assert_eq!(
        engine.finalise_milestone_voting(Origin::signed(alice()), 1, 0),
        Err(Error::VotingRoundNotStarted)
    );
    assert_eq!(engine.submit_milestone(Origin::signed(alice()), 1, 0), Ok(()));
    assert_eq!(engine.vote_on_milestone(Origin::signed(bob()), 1, 0, true), Ok(()));
    assert_eq!(
        engine.finalise_milestone_voting(Origin::signed(alice()), 1, 0),
        Err(Error::MilestoneVotingNotComplete)
    );
    assert!(engine.rounds(RoundType::VotingRound, 1, 0).is_some());
    assert!(!engine.projects(1).unwrap().milestones[0].is_approved);
}

#[test]
fn a_round_that_needs_no_vote_can_be_finalised_by_the_initiator() {
    let mut rules = config();
    rules.percent_required_for_vote_to_pass = 0;
    let mut engine = Pallet::new(rules);
    let mut balances = Balances::new();
    balances.deposit(CurrencyId::Native, alice(), DEPOSIT);
    balances.deposit(CurrencyId::KSM, bob(), 500);
    balances.reserve(CurrencyId::KSM, bob(), 500).unwrap();
    let mut ledger = Journal::new(balances);
    assert_eq!(create(&mut engine, &mut ledger, &[(bob(), 500)], &[100]), Ok(()));
    assert_eq!(engine.submit_milestone(Origin::signed(alice()), 1, 0), Ok(()));
    assert!(engine.rounds(RoundType::VotingRound, 1, 0).is_some());
    assert_eq!(engine.finalise_milestone_voting(Origin::signed(alice()), 1, 0), Ok(()));
    assert!(engine.rounds(RoundType::VotingRound, 1, 0).is_none());
    assert!(engine.projects(1).unwrap().milestones[0].is_approved);
    assert_eq!(engine.events().last(), Some(&Event::MilestoneApproved(alice(), 1, 0, 0)));
}

#[test]
fn rounds_close_when_their_block_begins() {
    let contributions = two_contributors();
    let (mut engine, mut ledger) = setup(&contributions);
    assert_eq!(create(&mut engine, &mut ledger, &contributions, &[50, 50]), Ok(()));
    assert_eq!(engine.submit_milestone(Origin::signed(alice()), 1, 0), Ok(()));
    assert_eq!(engine.submit_milestone(Origin::signed(alice()), 1, 1), Ok(()));
    assert_eq!(engine.vote_on_milestone(Origin::signed(bob()), 1, 1, true), Ok(()));
    engine.set_block_number(5);
    assert_eq!(engine.raise_vote_of_no_confidence(Origin::signed(bob()), 1), Ok(()));
    engine.set_block_number(100);
    let weight = engine.on_initialize(100);
    assert_eq!((weight.reads, weight.writes), (1, 1));
    assert!(engine.rounds(RoundType::VotingRound, 1, 0).is_some());
    engine.set_block_number(101);
    let weight = engine.on_initialize(101);
    assert_eq!((weight.reads, weight.writes), (3, 1));
    assert!(engine.rounds(RoundType::VotingRound, 1, 0).is_none());
    assert!(engine.rounds(RoundType::VotingRound, 1, 1).is_none());
    assert!(engine.rounds(RoundType::VoteOfNoConfidence, 1, 0).is_some());
    assert_eq!(
        engine.vote_on_milestone(Origin::signed(charlie()), 1, 1, true),
        Err(Error::VotingRoundNotStarted)
    );
    assert!(!engine.projects(1).unwrap().milestones[1].is_approved);
    engine.set_block_number(205);
    engine.on_initialize(205);
    assert!(engine.rounds(RoundType::VoteOfNoConfidence, 1, 0).is_none());
    // a closed round can be opened again
    assert_eq!(engine.submit_milestone(Origin::signed(alice()), 1, 1), Ok(()));
    assert_eq!(engine.rounds(RoundType::VotingRound, 1, 1).unwrap().expires_at, 305);
}

#[test]
fn defaults() {
    assert_eq!(Release::default(), Release::V3);
    assert_eq!(Vote::default(), Vote { yay: 0, nay: 0, is_approved: false });
    assert_eq!(Pallet::new(config()).storage_version(), Release::V3);
    assert_eq!(Pallet::new(config()).block_number(), 0);
    assert_eq!(Pallet::new(config()).config().imbue_fee, 5);
}

#[test]
fn projects_are_keyed_in_the_order_of_their_creation() {
    let contributions = vec![(bob(), 100)];
    let (mut engine, mut ledger) = setup(&contributions);
    ledger.ledger.deposit(CurrencyId::KSM, bob(), 100);
    ledger.ledger.reserve(CurrencyId::KSM, bob(), 100).unwrap();
    engine.set_block_number(8);
    assert_eq!(create(&mut engine, &mut ledger, &contributions, &[100]), Ok(()));
    engine.set_block_number(9);
    assert_eq!(create(&mut engine, &mut ledger, &contributions, &[60, 40]), Ok(()));
    assert_eq!(engine.project_count(), 2);
    assert_eq!(engine.projects(1).unwrap().created_on, 8);
    assert_eq!(engine.projects(2).unwrap().created_on, 9);
    assert_eq!(engine.projects(2).unwrap().milestones.len(), 2);
    assert_eq!(engine.projects(2).unwrap().milestones[1].project_key, 2);
    assert!(engine.projects(0).is_none());
    assert!(engine.projects(3).is_none());
    assert_ne!(engine.project_account_id(1), engine.project_account_id(2));
    assert_eq!(ledger.ledger.free(CurrencyId::KSM, engine.project_account_id(2)), 100);
    // a project that is gone leaves its key behind
    assert_eq!(engine.submit_milestone(Origin::signed(alice()), 1, 0), Ok(()));
    assert_eq!(engine.vote_on_milestone(Origin::signed(bob()), 1, 0, true), Ok(()));
    assert_eq!(engine.withdraw(&mut ledger, Origin::signed(alice()), 1), Ok(()));
    ledger.ledger.deposit(CurrencyId::KSM, bob(), 100);
    ledger.ledger.reserve(CurrencyId::KSM, bob(), 100).unwrap();
    assert_eq!(create(&mut engine, &mut ledger, &contributions, &[100]), Ok(()));
    assert!(engine.projects(1).is_none());
    assert!(engine.projects(3).is_some());
}

#[test]
fn what_is_asked_of_the_ledger() {
    let contributions = two_contributors();
    let (mut engine, mut ledger) = setup(&contributions);
    let custody = engine.project_account_id(1);
    assert_eq!(
        engine.plan_deposit(alice()),
        vec![LedgerCall::Reserve { currency: CurrencyId::Native, who: alice(), amount: DEPOSIT }]
    );
    let entries: Vec<(AccountId, Contribution)> =
        contributions.iter().map(|(who, value)| (*who, contribution(*value))).collect();
    assert_eq!(
        Pallet::plan_funding(FundingType::Proposal, &entries, custody, CurrencyId::KSM),
        vec![
            LedgerCall::Unreserve { currency: CurrencyId::KSM, who: bob(), amount: 600_000 },
            LedgerCall::Transfer {
                currency: CurrencyId::KSM,
                from: bob(),
                to: custody,
                amount: 600_000
            },
            LedgerCall::Unreserve { currency: CurrencyId::KSM, who: charlie(), amount: 400_000 },
            LedgerCall::Transfer {
                currency: CurrencyId::KSM,
                from: charlie(),
                to: custody,
                amount: 400_000
            },
        ]
    );
    assert!(Pallet::plan_funding(
        FundingType::Treasury(TreasuryOrigin::Imbue),
        &entries,
        custody,
        CurrencyId::KSM
    )
    .is_empty());
    assert_eq!(create(&mut engine, &mut ledger, &contributions, &[50, 50]), Ok(()));
    assert_eq!(engine.submit_milestone(Origin::signed(alice()), 1, 0), Ok(()));
    assert_eq!(engine.vote_on_milestone(Origin::signed(bob()), 1, 0, true), Ok(()));
    assert_eq!(engine.vote_on_milestone(Origin::signed(charlie()), 1, 0, true), Ok(()));
    let plan = engine.plan_withdrawal(alice(), 1).unwrap();
    let fee = LedgerCall::Transfer {
        currency: CurrencyId::KSM,
        from: custody,
        to: fee_account(),
        amount: 25_000,
    };
    let payout = LedgerCall::Transfer {
        currency: CurrencyId::KSM,
        from: custody,
        to: alice(),
        amount: 475_000,
    };
    assert_eq!(engine.withdrawal_calls(&plan), vec![fee, payout]);
    let last = Withdrawal { completes: true, ..plan };
    assert_eq!(
        engine.withdrawal_calls(&last),
        vec![
            fee,
            payout,
            LedgerCall::Unreserve { currency: CurrencyId::Native, who: alice(), amount: DEPOSIT },
        ]
    );
    // the calls are made in order, up to the first that is refused
    ledger.ledger.refuse_transfers_to = Some(alice());
    let before = ledger.ledger.transfers.len();
    let asked_before = ledger.calls.len();
    assert_eq!(
        ledger.perform(&vec![fee, payout, fee]),
        Err(LedgerError::LiquidityRestrictions)
    );
    assert_eq!(ledger.ledger.transfers.len(), before + 1);
    // the refused request is on record, what would have followed it is not
    assert_eq!(ledger.calls[asked_before..], [fee, payout]);
    assert_eq!(ledger.perform(&vec![]), Ok(()));
    assert_eq!(ledger.calls.len(), asked_before + 2);
}

#[test]
fn a_project_takes_as_many_contributors_and_milestones_as_allowed() {
    let (mut engine, mut ledger) = setup(&[]);
    let crowd: Vec<(AccountId, Contribution)> =
        (0..50).map(|i| (account(100 + i), contribution(1))).collect();
    let result = engine.convert_to_proposal(
        &mut ledger,
        CurrencyId::KSM,
        crowd,
        [1u8; 32],
        alice(),
        milestones(&[10; 10]),
        FundingType::Treasury(TreasuryOrigin::Imbue),
    );
    assert_eq!(result, Ok(()));
    let project = engine.projects(1).unwrap();
    assert_eq!(project.contributions.len(), 50);
    assert_eq!(project.milestones.len(), 10);
    assert_eq!(project.raised_funds, 50);
}
