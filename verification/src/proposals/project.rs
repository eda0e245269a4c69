//! A funded project: its milestones, the contributions behind it, and what of
//! its funds has been unlocked and withdrawn.
use crate::per_account::{find_entry, value_of};
use crate::percent::{as_percent, lemma_percent_of_bounded, mul_percent, percent_of, to_percent};
use crate::types::{
    AccountId, AgreementHash, Balance, BlockNumber, CurrencyId, FundingType, MilestoneKey,
    ProjectKey,
};
use vstd::prelude::*;

verus! {

/// The kinds of voting round.
#[derive(Clone, Copy, Debug, PartialEq, Eq, Structural)]
pub enum RoundType {
    /// The contributors vote on one milestone.
    VotingRound,
    /// The contributors vote on their confidence in the initiator.
    VoteOfNoConfidence,
}

/// The layouts that the store has had.
#[derive(Clone, Copy, Debug, PartialEq, Eq, Structural)]
pub enum Release {
    V0,
    V1,
    V2,
    V3,
}

impl Default for Release {
    fn default() -> (release: Release)
        ensures
            release == Release::V3,
    {
        Release::V3
    }
}

/// A milestone as proposed, before the project exists.
#[derive(Clone, Copy, Debug, PartialEq, Eq, Structural)]
pub struct ProposedMilestone {
    /// The share of the raised funds that the milestone unlocks, in percent.
    pub percentage_to_unlock: u32,
}

/// A milestone of a project.
#[derive(Clone, Copy, Debug, PartialEq, Eq, Structural)]
pub struct Milestone {
    /// The project that the milestone belongs to.
    pub project_key: ProjectKey,
    /// The key of the milestone within its project.
    pub milestone_key: MilestoneKey,
    /// The share of the raised funds that the milestone unlocks, in percent.
    pub percentage_to_unlock: u32,
    /// Whether the contributors have approved the milestone.
    pub is_approved: bool,
    /// Whether a dispute has made the milestone eligible for a refund.
    pub can_refund: bool,
    /// Whether the milestone has been refunded.
    pub is_refunded: bool,
}

/// The weight of the votes cast in a round.
#[derive(Clone, Copy, Debug, PartialEq, Eq, Structural)]
pub struct Vote {
    /// The weight of the votes for.
    pub yay: Balance,
    /// The weight of the votes against.
    pub nay: Balance,
    /// Whether the round has been decided in favour.
    pub is_approved: bool,
}

/// What one account has contributed to a project.
#[derive(Clone, Copy, Debug, PartialEq, Eq, Structural)]
pub struct Contribution {
    /// The amount contributed, which is also the weight of the account's vote.
    pub value: Balance,
    /// The block of the contribution.
    pub timestamp: BlockNumber,
}

/// A project.
#[derive(Clone, Debug, PartialEq, Eq)]
pub struct Project {
    /// The digest of the agreement between initiator and contributors.
    pub agreement_hash: AgreementHash,
    /// The milestones, in the order of their keys.
    pub milestones: Vec<Milestone>,
    /// The contribution of each contributor.
    pub contributions: Vec<(AccountId, Contribution)>,
    /// The currency of the funds.
    pub currency_id: CurrencyId,
    /// What the initiator has withdrawn so far.
    pub withdrawn_funds: Balance,
    /// What the contributors have put in.
    pub raised_funds: Balance,
    /// The account that does the work and receives the funds.
    pub initiator: AccountId,
    /// The block at which the project was created.
    pub created_on: BlockNumber,
    /// Whether the project has been cancelled.
    pub cancelled: bool,
    /// Where the funds came from.
    pub funding_type: FundingType,
}

/// A project as contracts see it.
pub struct ProjectView {
    pub agreement_hash: AgreementHash,
    pub milestones: Seq<Milestone>,
    pub contributions: Seq<(AccountId, Contribution)>,
    pub currency_id: CurrencyId,
    pub withdrawn_funds: Balance,
    pub raised_funds: Balance,
    pub initiator: AccountId,
    pub created_on: BlockNumber,
    pub cancelled: bool,
    pub funding_type: FundingType,
}

impl View for Project {
    type V = ProjectView;

    open spec fn view(&self) -> ProjectView {
        ProjectView {
            agreement_hash: self.agreement_hash,
            milestones: self.milestones@,
            contributions: self.contributions@,
            currency_id: self.currency_id,
            withdrawn_funds: self.withdrawn_funds,
            raised_funds: self.raised_funds,
            initiator: self.initiator,
            created_on: self.created_on,
            cancelled: self.cancelled,
            funding_type: self.funding_type,
        }
    }
}

/// The sum of two amounts, or the largest amount there is.
pub open spec fn sat_add(a: Balance, b: Balance) -> Balance {
    if a + b > u128::MAX {
        u128::MAX
    } else {
        (a + b) as u128
    }
}

/// The difference of two amounts, or nothing.
pub open spec fn sat_sub(a: Balance, b: Balance) -> Balance {
    if a < b {
        0
    } else {
        (a - b) as u128
    }
}

/// Whether a milestone with the key `key` is among `milestones`.
pub open spec fn has_milestone(milestones: Seq<Milestone>, key: MilestoneKey) -> bool {
    exists|i: int| 0 <= i < milestones.len() && (#[trigger] milestones[i]).milestone_key == key
}

/// Whether a milestone with the key `key` is among `milestones` and approved.
pub open spec fn has_approved(milestones: Seq<Milestone>, key: MilestoneKey) -> bool {
    exists|i: int|
        0 <= i < milestones.len() && (#[trigger] milestones[i]).milestone_key == key
            && milestones[i].is_approved
}

/// The milestones with the one under `key` approved.
pub open spec fn approved(milestones: Seq<Milestone>, key: MilestoneKey) -> Seq<Milestone> {
    Seq::new(
        milestones.len(),
        |i: int|
            if milestones[i].milestone_key == key {
                Milestone { is_approved: true, ..milestones[i] }
            } else {
                milestones[i]
            },
    )
}

/// The milestones with those under `keys` made eligible for a refund.
pub open spec fn refundable(milestones: Seq<Milestone>, keys: Seq<MilestoneKey>) -> Seq<
    Milestone,
> {
    Seq::new(
        milestones.len(),
        |i: int|
            if keys.contains(milestones[i].milestone_key) {
                Milestone { can_refund: true, ..milestones[i] }
            } else {
                milestones[i]
            },
    )
}

/// What one milestone unlocks of `raised`: its share if it is approved.
pub open spec fn unlocked_by(milestone: Milestone, raised: Balance) -> int {
    if milestone.is_approved {
        percent_of(as_percent(milestone.percentage_to_unlock), raised)
    } else {
        0
    }
}

/// What the approved milestones unlock of `raised`, each share rounded down.
pub open spec fn unlocked_sum(milestones: Seq<Milestone>, raised: Balance) -> int
    decreases milestones.len(),
{
    if milestones.len() == 0 {
        0
    } else {
        unlocked_sum(milestones.drop_last(), raised) + unlocked_by(milestones.last(), raised)
    }
}

/// The sum of the contributions, or the largest amount there is.
pub open spec fn total_contributed(contributions: Seq<(AccountId, Contribution)>) -> Balance
    decreases contributions.len(),
{
    if contributions.len() == 0 {
        0
    } else {
        sat_add(total_contributed(contributions.drop_last()), contributions.last().1.value)
    }
}

/// The milestones that `proposed` become in the project `project_key`: keyed
/// from 0 upwards in the order given, none of them approved.
pub open spec fn milestones_from(proposed: Seq<ProposedMilestone>, project_key: ProjectKey) -> Seq<
    Milestone,
> {
    Seq::new(
        proposed.len(),
        |i: int|
            Milestone {
                project_key,
                milestone_key: i as u32,
                percentage_to_unlock: proposed[i].percentage_to_unlock,
                is_approved: false,
                can_refund: false,
                is_refunded: false,
            },
    )
}

/// The unlocked sum is never negative.
pub proof fn lemma_unlocked_sum_nonnegative(milestones: Seq<Milestone>, raised: Balance)
    ensures
        0 <= unlocked_sum(milestones, raised),
    decreases milestones.len(),
{
    if milestones.len() > 0 {
        lemma_unlocked_sum_nonnegative(milestones.drop_last(), raised);
        lemma_percent_of_bounded(as_percent(milestones.last().percentage_to_unlock), raised);
    }
}

impl Vote {
    /// This tally with `weight` more on one side.
    pub open spec fn plus(self, approve: bool, weight: Balance) -> Vote {
        if approve {
            Vote { yay: sat_add(self.yay, weight), ..self }
        } else {
            Vote { nay: sat_add(self.nay, weight), ..self }
        }
    }

    /// This tally with `weight` less on one side.
    pub open spec fn minus(self, approve: bool, weight: Balance) -> Vote {
        if approve {
            Vote { yay: sat_sub(self.yay, weight), ..self }
        } else {
            Vote { nay: sat_sub(self.nay, weight), ..self }
        }
    }

    /// This tally after an account of weight `weight` has voted `approve`,
    /// having voted `previous` before: a first vote adds its weight, a repeated
    /// one changes nothing, a changed one moves its weight to the other side.
    pub open spec fn with_ballot(
        self,
        previous: Option<bool>,
        approve: bool,
        weight: Balance,
    ) -> Vote {
        match previous {
            None => self.plus(approve, weight),
            Some(before) => if before == approve {
                self
            } else {
                self.minus(before, weight).plus(approve, weight)
            },
        }
    }

    /// Counts the vote of an account of weight `weight`, which voted `previous`
    /// before.
    pub fn cast(&mut self, previous: Option<bool>, approve: bool, weight: Balance)
        ensures
            *final(self) == old(self).with_ballot(previous, approve, weight),
    {
        match previous {
            None => {},
            Some(before) => {
                if before == approve {
                    return ;
                }
                if before {
                    self.yay = self.yay.saturating_sub(weight);
                } else {
                    self.nay = self.nay.saturating_sub(weight);
                }
            },
        }
        if approve {
            self.yay = self.yay.saturating_add(weight);
        } else {
            self.nay = self.nay.saturating_add(weight);
        }
    }
}

impl Default for Vote {
    fn default() -> (vote: Vote)
        ensures
            vote == (Vote { yay: 0, nay: 0, is_approved: false }),
    {
        Vote { yay: 0, nay: 0, is_approved: false }
    }
}

impl ProjectView {
    /// What the approved milestones have unlocked: the sum of their shares of
    /// the raised funds, and never more than was raised.
    pub open spec fn unlocked(self) -> Balance {
        let sum = unlocked_sum(self.milestones, self.raised_funds);
        if sum > self.raised_funds {
            self.raised_funds
        } else {
            sum as u128
        }
    }

    /// What can be withdrawn now: what is unlocked and not yet withdrawn.
    pub open spec fn withdrawable(self) -> Balance {
        sat_sub(self.unlocked(), self.withdrawn_funds)
    }

    /// The contribution of `who`, if `who` has contributed.
    pub open spec fn contribution_of(self, who: AccountId) -> Option<Contribution> {
        value_of(self.contributions, who)
    }

    /// This project with the milestone `key` approved.
    pub open spec fn with_approved(self, key: MilestoneKey) -> ProjectView {
        ProjectView { milestones: approved(self.milestones, key), ..self }
    }

    /// This project with the milestones `keys` eligible for a refund.
    pub open spec fn with_refundable(self, keys: Seq<MilestoneKey>) -> ProjectView {
        ProjectView { milestones: refundable(self.milestones, keys), ..self }
    }

    /// No more has been withdrawn than was raised.
    pub open spec fn wf(self) -> bool {
        self.withdrawn_funds <= self.raised_funds
    }
}

impl Project {
    /// The position of the milestone `key`, if the project has it.
    pub fn find_milestone(&self, key: MilestoneKey) -> (r: Option<usize>)
        ensures
            r.is_some() == has_milestone(self@.milestones, key),
            match r {
                Some(i) => i < self@.milestones.len() && self@.milestones[i as int].milestone_key
                    == key && forall|j: int|
                    0 <= j < i ==> (#[trigger] self@.milestones[j]).milestone_key != key,
                None => true,
            },
    {
        let mut i: usize = 0;
        while i < self.milestones.len()
            invariant
                i <= self.milestones@.len(),
                forall|j: int| 0 <= j < i ==> (#[trigger] self.milestones@[j]).milestone_key != key,
            decreases self.milestones@.len() - i,
        {
            if self.milestones[i].milestone_key == key {
                return Some(i);
            }
            i += 1;
        }
        None
    }

    /// Whether the project has the milestone `key`, approved.
    pub fn is_approved(&self, key: MilestoneKey) -> (r: bool)
        ensures
            r == has_approved(self@.milestones, key),
    {
        let mut i: usize = 0;
        while i < self.milestones.len()
            invariant
                i <= self.milestones@.len(),
                forall|j: int|
                    0 <= j < i ==> !((#[trigger] self.milestones@[j]).milestone_key == key
                        && self.milestones@[j].is_approved),
            decreases self.milestones@.len() - i,
        {
            if self.milestones[i].milestone_key == key && self.milestones[i].is_approved {
                return true;
            }
            i += 1;
        }
        false
    }

    /// The contribution of `who`, if `who` has contributed.
    pub fn contribution(&self, who: &AccountId) -> (r: Option<Contribution>)
        ensures
            r == self@.contribution_of(*who),
    {
        match find_entry(&self.contributions, who) {
            Some(i) => Some(self.contributions[i].1),
            None => None,
        }
    }

    /// Approves the milestone `key`.
    pub fn approve_milestone(&mut self, key: MilestoneKey)
        ensures
            final(self)@ == old(self)@.with_approved(key),
    {
        let n = self.milestones.len();
        let mut i: usize = 0;
        while i < n
            invariant
                i <= n,
                n == old(self).milestones@.len(),
                self.milestones@.len() == n,
                self@ == (ProjectView { milestones: self.milestones@, ..old(self)@ }),
                forall|j: int|
                    0 <= j < i ==> self.milestones@[j] == approved(old(self).milestones@, key)[j],
                forall|j: int| i <= j < n ==> self.milestones@[j] == old(self).milestones@[j],
            decreases n - i,
        {
            let milestone = self.milestones[i];
            if milestone.milestone_key == key {
                self.milestones.set(i, Milestone { is_approved: true, ..milestone });
            }
            i += 1;
        }
        assert(self.milestones@ =~= approved(old(self).milestones@, key));
    }

    /// Makes the milestones `keys` eligible for a refund.
    pub fn mark_refundable(&mut self, keys: &Vec<MilestoneKey>)
        ensures
            final(self)@ == old(self)@.with_refundable(keys@),
    {
        let n = self.milestones.len();
        let mut i: usize = 0;
        while i < n
            invariant
                i <= n,
                n == old(self).milestones@.len(),
                self.milestones@.len() == n,
                self@ == (ProjectView { milestones: self.milestones@, ..old(self)@ }),
                forall|j: int|
                    0 <= j < i ==> self.milestones@[j] == refundable(
                        old(self).milestones@,
                        keys@,
                    )[j],
                forall|j: int| i <= j < n ==> self.milestones@[j] == old(self).milestones@[j],
            decreases n - i,
        {
            let milestone = self.milestones[i];
            if contains_key(keys, milestone.milestone_key) {
                self.milestones.set(i, Milestone { can_refund: true, ..milestone });
            }
            i += 1;
        }
        assert(self.milestones@ =~= refundable(old(self).milestones@, keys@));
    }

    /// What the approved milestones have unlocked.
    pub fn unlocked_funds(&self) -> (unlocked: Balance)
        ensures
            unlocked == self@.unlocked(),
    {
        let mut sum: Balance = 0;
        let mut i: usize = 0;
        assert(self.milestones@.take(0) =~= Seq::<Milestone>::empty());
        while i < self.milestones.len()
            invariant
                i <= self.milestones@.len(),
                sum == (if unlocked_sum(self.milestones@.take(i as int), self.raised_funds)
                    > u128::MAX {
                    u128::MAX as int
                } else {
                    unlocked_sum(self.milestones@.take(i as int), self.raised_funds)
                }),
            decreases self.milestones@.len() - i,
        {
            let milestone = self.milestones[i];
            proof {
                assert(self.milestones@.take(i + 1).drop_last() == self.milestones@.take(i as int));
                assert(self.milestones@.take(i + 1).last() == milestone);
                lemma_unlocked_sum_nonnegative(self.milestones@.take(i as int), self.raised_funds);
                lemma_percent_of_bounded(
                    as_percent(milestone.percentage_to_unlock),
                    self.raised_funds,
                );
            }
            if milestone.is_approved {
                let share = mul_percent(
                    to_percent(milestone.percentage_to_unlock),
                    self.raised_funds,
                );
                sum = sum.saturating_add(share);
            }
            i += 1;
        }
        assert(self.milestones@.take(i as int) == self.milestones@);
        if sum > self.raised_funds {
            self.raised_funds
        } else {
            sum
        }
    }
}

/// Whether `key` is one of `keys`.
pub fn contains_key(keys: &Vec<MilestoneKey>, key: MilestoneKey) -> (r: bool)
    ensures
        r == keys@.contains(key),
{
    let mut i: usize = 0;
    while i < keys.len()
        invariant
            i <= keys@.len(),
            forall|j: int| 0 <= j < i ==> keys@[j] != key,
        decreases keys@.len() - i,
    {
        if keys[i] == key {
            return true;
        }
        i += 1;
    }
    false
}

} // verus!
