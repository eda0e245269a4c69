//! One dispute: its panel, the votes cast so far and its deadline.
use crate::per_account::{
    distinct_accounts, find_entry, lemma_position_of, record_entry, recorded, value_of,
};
use crate::types::{AccountId, BlockNumber};
use vstd::prelude::*;

verus! {

/// The key of a dispute, supplied by whoever raises it.
pub type DisputeKey = u32;

/// How a dispute ended.
#[derive(Clone, Copy, Debug, PartialEq, Eq, Structural)]
pub enum DisputeResult {
    /// The dispute was upheld.
    Success,
    /// The dispute was dismissed.
    Failure,
}

/// A dispute that is open for votes.
#[derive(Clone, Debug, PartialEq, Eq)]
pub struct Dispute {
    /// Who raised the dispute.
    pub raised_by: AccountId,
    /// The vote of each juror who has voted, in the order of their first vote.
    pub votes: Vec<(AccountId, bool)>,
    /// The accounts entitled to vote.
    pub jury: Vec<AccountId>,
    /// What the dispute is about, such as the keys of the disputed milestones.
    pub specifiers: Vec<u32>,
    /// Whether the deadline has been extended; it can be extended once.
    pub is_extended: bool,
    /// The block at which the dispute expires.
    pub expiration: BlockNumber,
}

/// A dispute as contracts see it.
pub struct DisputeView {
    pub raised_by: AccountId,
    pub votes: Seq<(AccountId, bool)>,
    pub jury: Seq<AccountId>,
    pub specifiers: Seq<u32>,
    pub is_extended: bool,
    pub expiration: BlockNumber,
}

impl View for Dispute {
    type V = DisputeView;

    open spec fn view(&self) -> DisputeView {
        DisputeView {
            raised_by: self.raised_by,
            votes: self.votes@,
            jury: self.jury@,
            specifiers: self.specifiers@,
            is_extended: self.is_extended,
            expiration: self.expiration,
        }
    }
}

/// The number of votes for one side.
pub open spec fn tally(votes: Seq<(AccountId, bool)>, side: bool) -> nat
    decreases votes.len(),
{
    if votes.len() == 0 {
        0
    } else {
        tally(votes.drop_last(), side) + if votes.last().1 == side {
            1nat
        } else {
            0nat
        }
    }
}

/// Whether every vote cast is for `side`.
pub open spec fn unanimous(votes: Seq<(AccountId, bool)>, side: bool) -> bool {
    forall|i: int| 0 <= i < votes.len() ==> (#[trigger] votes[i]).1 == side
}

impl DisputeView {
    /// Whether `who` sits on the panel.
    pub open spec fn is_juror(self, who: AccountId) -> bool {
        self.jury.contains(who)
    }

    /// The result that the votes cast so far force, if any: with every seat of
    /// the panel voted, a unanimous panel decides; a split one does not.
    pub open spec fn verdict(self) -> Option<DisputeResult> {
        if self.votes.len() != self.jury.len() {
            None
        } else if unanimous(self.votes, true) {
            Some(DisputeResult::Success)
        } else if unanimous(self.votes, false) {
            Some(DisputeResult::Failure)
        } else {
            None
        }
    }

    /// The result by count of votes: upheld unless more voted against than for.
    pub open spec fn winner(self) -> DisputeResult {
        if tally(self.votes, true) >= tally(self.votes, false) {
            DisputeResult::Success
        } else {
            DisputeResult::Failure
        }
    }

    /// This dispute after `who` has voted `is_yay`.
    pub open spec fn with_vote(self, who: AccountId, is_yay: bool) -> DisputeView {
        DisputeView { votes: recorded(self.votes, who, is_yay), ..self }
    }

    /// Only jurors have voted, and none of them twice.
    pub open spec fn wf(self) -> bool {
        &&& distinct_accounts(self.votes)
        &&& forall|i: int|
            0 <= i < self.votes.len() ==> self.jury.contains((#[trigger] self.votes[i]).0)
    }
}

impl Dispute {
    /// A dispute without votes, not extended, that expires at `expiration`.
    pub fn new(
        raised_by: AccountId,
        jury: Vec<AccountId>,
        specifiers: Vec<u32>,
        expiration: BlockNumber,
    ) -> (dispute: Dispute)
        ensures
            dispute@ == (DisputeView {
                raised_by,
                votes: Seq::empty(),
                jury: jury@,
                specifiers: specifiers@,
                is_extended: false,
                expiration,
            }),
    {
        Dispute { raised_by, votes: Vec::new(), jury, specifiers, is_extended: false, expiration }
    }

    /// Whether `who` sits on the panel.
    pub fn is_juror(&self, who: &AccountId) -> (r: bool)
        ensures
            r == self@.is_juror(*who),
    {
        let mut i: usize = 0;
        while i < self.jury.len()
            invariant
                i <= self.jury@.len(),
                forall|j: int| 0 <= j < i ==> self.jury@[j] != *who,
            decreases self.jury@.len() - i,
        {
            if self.jury[i].same(who) {
                return true;
            }
            i += 1;
        }
        false
    }

    /// The vote of `who`, if `who` has voted.
    pub fn get_vote(&self, who: &AccountId) -> (r: Option<bool>)
        ensures
            r == value_of(self@.votes, *who),
    {
        proof {
            lemma_position_of(self.votes@, *who);
        }
        match find_entry(&self.votes, who) {
            Some(i) => Some(self.votes[i].1),
            None => None,
        }
    }

    /// Records the vote of `who`, in place of an earlier one if there is one.
    pub fn record_vote(&mut self, who: AccountId, is_yay: bool)
        ensures
            final(self)@ == old(self)@.with_vote(who, is_yay),
    {
        record_entry(&mut self.votes, who, is_yay);
    }

    /// Whether every vote cast is for `side`.
    fn all_voted(&self, side: bool) -> (r: bool)
        ensures
            r == unanimous(self@.votes, side),
    {
        let mut i: usize = 0;
        while i < self.votes.len()
            invariant
                i <= self.votes@.len(),
                forall|j: int| 0 <= j < i ==> (#[trigger] self.votes@[j]).1 == side,
            decreases self.votes@.len() - i,
        {
            if self.votes[i].1 != side {
                return false;
            }
            i += 1;
        }
        true
    }

    /// The result that the votes cast so far force, if any.
    pub fn verdict(&self) -> (r: Option<DisputeResult>)
        ensures
            r == self@.verdict(),
    {
        if self.votes.len() != self.jury.len() {
            None
        } else if self.all_voted(true) {
            Some(DisputeResult::Success)
        } else if self.all_voted(false) {
            Some(DisputeResult::Failure)
        } else {
            None
        }
    }

    /// The number of votes for `side`.
    pub fn count_votes(&self, side: bool) -> (n: usize)
        ensures
            n == tally(self@.votes, side),
    {
        let mut n: usize = 0;
        let mut i: usize = 0;
        while i < self.votes.len()
            invariant
                i <= self.votes@.len(),
                n <= i,
                n == tally(self.votes@.take(i as int), side),
            decreases self.votes@.len() - i,
        {
            assert(self.votes@.take(i + 1).drop_last() == self.votes@.take(i as int));
            if self.votes[i].1 == side {
                n += 1;
            }
            i += 1;
        }
        assert(self.votes@.take(i as int) == self.votes@);
        n
    }

    /// The result by count of votes: upheld unless more voted against than for.
    pub fn calculate_winner(&self) -> (r: DisputeResult)
        ensures
            r == self@.winner(),
    {
        if self.count_votes(true) >= self.count_votes(false) {
            DisputeResult::Success
        } else {
            DisputeResult::Failure
        }
    }
}

} // verus!
