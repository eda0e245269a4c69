//! A voting round: the tally and the ballots of one vote of the contributors.
use crate::per_account::{find_entry, record_entry, recorded, value_of};
use crate::proposals::project::{RoundType, Vote};
use crate::types::{AccountId, Balance, BlockNumber, MilestoneKey, ProjectKey};
use vstd::prelude::*;

verus! {

/// An open voting round.
#[derive(Clone, Debug, PartialEq, Eq)]
pub struct Round {
    /// What the round decides.
    pub round_type: RoundType,
    /// The project that the round belongs to.
    pub project_key: ProjectKey,
    /// The milestone voted on; 0 in a vote of no confidence.
    pub milestone_key: MilestoneKey,
    /// The block at which the round closes.
    pub expires_at: BlockNumber,
    /// The weight of the votes cast so far.
    pub vote: Vote,
    /// Which way each account that has voted voted last.
    pub ballots: Vec<(AccountId, bool)>,
}

/// A round as contracts see it.
pub struct RoundView {
    pub round_type: RoundType,
    pub project_key: ProjectKey,
    pub milestone_key: MilestoneKey,
    pub expires_at: BlockNumber,
    pub vote: Vote,
    pub ballots: Seq<(AccountId, bool)>,
}

impl View for Round {
    type V = RoundView;

    open spec fn view(&self) -> RoundView {
        RoundView {
            round_type: self.round_type,
            project_key: self.project_key,
            milestone_key: self.milestone_key,
            expires_at: self.expires_at,
            vote: self.vote,
            ballots: self.ballots@,
        }
    }
}

/// The entry that stands for a round in the store and in the expiry index.
pub open spec fn round_id(
    round_type: RoundType,
    project_key: ProjectKey,
    milestone_key: MilestoneKey,
) -> u128 {
    match round_type {
        RoundType::VotingRound => (project_key * 0x1_0000_0000 + milestone_key) as u128,
        RoundType::VoteOfNoConfidence => (0x1_0000_0000_0000_0000 + project_key
            * 0x1_0000_0000) as u128,
    }
}

/// Different rounds have different entries, so that the store holds at most
/// one open round of a kind for a project and a milestone.
pub proof fn law_one_entry_per_round(
    a_type: RoundType,
    a_project: ProjectKey,
    a_milestone: MilestoneKey,
    b_type: RoundType,
    b_project: ProjectKey,
    b_milestone: MilestoneKey,
)
    requires
        a_type == RoundType::VoteOfNoConfidence ==> a_milestone == 0,
        b_type == RoundType::VoteOfNoConfidence ==> b_milestone == 0,
        round_id(a_type, a_project, a_milestone) == round_id(b_type, b_project, b_milestone),
    ensures
        a_type == b_type,
        a_project == b_project,
        a_milestone == b_milestone,
{
}

/// The entry that stands for a round in the store and in the expiry index.
pub fn make_round_id(
    round_type: RoundType,
    project_key: ProjectKey,
    milestone_key: MilestoneKey,
) -> (id: u128)
    ensures
        id == round_id(round_type, project_key, milestone_key),
{
    let high: u128 = project_key as u128 * 0x1_0000_0000;
    match round_type {
        RoundType::VotingRound => high + milestone_key as u128,
        RoundType::VoteOfNoConfidence => 0x1_0000_0000_0000_0000 + high,
    }
}

impl RoundView {
    /// This round after an account of weight `weight` has voted `approve`.
    pub open spec fn with_ballot(
        self,
        who: AccountId,
        approve: bool,
        weight: Balance,
    ) -> RoundView {
        RoundView {
            vote: self.vote.with_ballot(value_of(self.ballots, who), approve, weight),
            ballots: recorded(self.ballots, who, approve),
            ..self
        }
    }
}

impl Round {
    /// A round without votes.
    pub fn new(
        round_type: RoundType,
        project_key: ProjectKey,
        milestone_key: MilestoneKey,
        expires_at: BlockNumber,
    ) -> (round: Round)
        ensures
            round@ == (RoundView {
                round_type,
                project_key,
                milestone_key,
                expires_at,
                vote: Vote { yay: 0, nay: 0, is_approved: false },
                ballots: Seq::empty(),
            }),
    {
        Round {
            round_type,
            project_key,
            milestone_key,
            expires_at,
            vote: Vote::default(),
            ballots: Vec::new(),
        }
    }

    /// Counts the vote of `who`, an account of weight `weight`: a first vote
    /// adds its weight, a repeated one changes nothing, a changed one moves its
    /// weight to the other side.
    pub fn cast(&mut self, who: AccountId, approve: bool, weight: Balance)
        ensures
            final(self)@ == old(self)@.with_ballot(who, approve, weight),
    {
        let previous = match find_entry(&self.ballots, &who) {
            Some(i) => Some(self.ballots[i].1),
            None => None,
        };
        self.vote.cast(previous, approve, weight);
        record_entry(&mut self.ballots, who, approve);
    }
}

} // verus!
