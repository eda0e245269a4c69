//! The state of the dispute engine as contracts see it, and what each
//! operation makes of it.
use crate::bucket::BUCKET_CEILING;
use crate::disputes::dispute::{DisputeKey, DisputeResult, DisputeView};
use crate::expiry::bounded;
use crate::types::{AccountId, BlockNumber, Origin};
use vstd::prelude::*;

verus! {

/// Why the dispute engine refused an operation.
#[derive(Clone, Copy, Debug, PartialEq, Eq, Structural)]
pub enum Error {
    /// No open dispute has this key.
    DisputeDoesNotExist,
    /// An open dispute already has this key.
    DisputeAlreadyExists,
    /// The account does not sit on the panel of the dispute.
    NotAJuryAccount,
    /// Too many disputes already expire at the block in question.
    TooManyDisputesThisBlock,
    /// The deadline of the dispute has been extended before.
    DisputeAlreadyExtended,
    /// The panel is larger than the engine allows.
    TooManyJurors,
    /// The dispute names more specifiers than the engine allows.
    TooManySpecifics,
    /// The request did not come from an origin that may make it.
    BadOrigin,
}

/// What the dispute engine reports.
#[derive(Clone, Copy, Debug, PartialEq, Eq)]
pub enum Event {
    /// A dispute has been raised.
    DisputeRaised { dispute_key: DisputeKey },
    /// A juror has voted.
    DisputeVotedOn { who: AccountId },
    /// A dispute has been finalised and removed.
    DisputeCompleted { dispute_key: DisputeKey },
    /// The deadline of a dispute has been extended.
    DisputeExtended { dispute_key: DisputeKey },
    /// The authority has decided a dispute over the head of its jury.
    DisputeForced { dispute_key: DisputeKey, result: DisputeResult },
}

/// The limits under which a dispute engine runs.
#[derive(Clone, Copy, Debug, PartialEq, Eq, Structural)]
pub struct Config {
    /// The largest panel that a dispute can have.
    pub max_jury_size: u32,
    /// The largest number of specifiers that a dispute can name.
    pub max_specifics: u32,
    /// The number of blocks for which a dispute is open, and by which an
    /// extension prolongs it.
    pub voting_time_limit: BlockNumber,
    /// The largest number of disputes that may expire at one block.
    pub max_disputes_per_block: u32,
}

/// The dispute engine as contracts see it.
pub struct State {
    /// The open disputes.
    pub disputes: Map<DisputeKey, DisputeView>,
    /// For each block, the entries of the disputes that expire at it.
    pub finalise_on: Map<BlockNumber, Seq<u128>>,
    /// The current block.
    pub now: BlockNumber,
    /// Everything reported so far, oldest first.
    pub events: Seq<Event>,
}

/// One call of the completion hook.
pub struct Completion {
    pub key: DisputeKey,
    pub specifiers: Seq<u32>,
    pub result: DisputeResult,
}

/// Every dispute is within the limits, with votes of jurors only and one per
/// juror.
pub open spec fn within_limits(disputes: Map<DisputeKey, DisputeView>, cfg: Config) -> bool {
    forall|key: DisputeKey| #[trigger]
        disputes.contains_key(key) ==> {
            &&& disputes[key].wf()
            &&& disputes[key].jury.len() <= cfg.max_jury_size
            &&& disputes[key].specifiers.len() <= cfg.max_specifics
        }
}

/// The entry that stands for a dispute in the expiry index.
pub open spec fn entry_id(key: DisputeKey) -> u128 {
    key as u128
}

/// The block that lies `limit` blocks after `from`, or the last block there is.
pub open spec fn deadline(from: BlockNumber, limit: BlockNumber) -> BlockNumber {
    if from + limit > u32::MAX {
        u32::MAX
    } else {
        (from + limit) as u32
    }
}

impl Config {
    /// The number of disputes that may expire at one block.
    pub open spec fn bucket_capacity(self) -> nat {
        if self.max_disputes_per_block <= BUCKET_CEILING {
            self.max_disputes_per_block as nat
        } else {
            BUCKET_CEILING as nat
        }
    }
}

impl State {
    /// The state of an engine that has seen nothing yet.
    pub open spec fn empty() -> State {
        State {
            disputes: Map::empty(),
            finalise_on: Map::total(|block: BlockNumber| Seq::<u128>::empty()),
            now: 0,
            events: Seq::empty(),
        }
    }

    /// Every block has a bucket within the capacity, and every dispute is
    /// within the limits, with votes of jurors only and one per juror.
    pub open spec fn inv(self, cfg: Config) -> bool {
        &&& bounded(self.finalise_on, cfg.bucket_capacity())
        &&& within_limits(self.disputes, cfg)
    }

    /// Whether a dispute can be raised under `key`, and if not, why not.
    pub open spec fn raise_outcome(
        self,
        cfg: Config,
        key: DisputeKey,
        jury: Seq<AccountId>,
        specifiers: Seq<u32>,
    ) -> Result<(), Error> {
        if self.disputes.contains_key(key) {
            Err(Error::DisputeAlreadyExists)
        } else if jury.len() > cfg.max_jury_size {
            Err(Error::TooManyJurors)
        } else if specifiers.len() > cfg.max_specifics {
            Err(Error::TooManySpecifics)
        } else if self.finalise_on[deadline(self.now, cfg.voting_time_limit)].len()
            >= cfg.bucket_capacity() {
            Err(Error::TooManyDisputesThisBlock)
        } else {
            Ok(())
        }
    }

    /// The state after a dispute has been raised: the dispute is open without
    /// votes, expires one voting time from now, and is entered in the index.
    pub open spec fn raised(
        self,
        cfg: Config,
        key: DisputeKey,
        raised_by: AccountId,
        jury: Seq<AccountId>,
        specifiers: Seq<u32>,
    ) -> State {
        let expiration = deadline(self.now, cfg.voting_time_limit);
        let dispute = DisputeView {
            raised_by,
            votes: Seq::empty(),
            jury,
            specifiers,
            is_extended: false,
            expiration,
        };
        State {
            disputes: self.disputes.insert(key, dispute),
            finalise_on: self.finalise_on.insert(
                expiration,
                self.finalise_on[expiration].push(entry_id(key)),
            ),
            events: self.events.push(Event::DisputeRaised { dispute_key: key }),
            ..self
        }
    }

    /// The state after the dispute `key` has been finalised: the dispute and
    /// its entry in the index are gone, and its completion is reported.
    pub open spec fn finalised(self, key: DisputeKey) -> State {
        let expiration = self.disputes[key].expiration;
        State {
            disputes: self.disputes.remove(key),
            finalise_on: self.finalise_on.insert(
                expiration,
                self.finalise_on[expiration].remove_value(entry_id(key)),
            ),
            events: self.events.push(Event::DisputeCompleted { dispute_key: key }),
            ..self
        }
    }

    /// Whether `origin` can vote on the dispute `key`, and if not, why not.
    pub open spec fn vote_outcome(self, origin: Origin, key: DisputeKey) -> Result<(), Error> {
        match origin {
            Origin::Signed(who) => {
                if !self.disputes.contains_key(key) {
                    Err(Error::DisputeDoesNotExist)
                } else if !self.disputes[key].is_juror(who) {
                    Err(Error::NotAJuryAccount)
                } else {
                    Ok(())
                }
            },
            _ => Err(Error::BadOrigin),
        }
    }

    /// The result with which a vote of `who` finalises the dispute, if it does.
    pub open spec fn verdict_after(self, who: AccountId, key: DisputeKey, is_yay: bool) -> Option<
        DisputeResult,
    > {
        self.disputes[key].with_vote(who, is_yay).verdict()
    }

    /// The state after `who` has voted on the dispute `key`: the vote is
    /// recorded, and where it completes a unanimous panel the dispute is
    /// finalised.
    pub open spec fn voted(self, who: AccountId, key: DisputeKey, is_yay: bool) -> State {
        let dispute = self.disputes[key].with_vote(who, is_yay);
        let recorded = State { disputes: self.disputes.insert(key, dispute), ..self };
        let settled = if dispute.verdict().is_some() {
            recorded.finalised(key)
        } else {
            recorded
        };
        State { events: settled.events.push(Event::DisputeVotedOn { who }), ..settled }
    }

    /// Whether `origin` can extend the dispute `key`, and if not, why not.
    pub open spec fn extend_outcome(self, cfg: Config, origin: Origin, key: DisputeKey) -> Result<
        (),
        Error,
    > {
        match origin {
            Origin::Signed(who) => {
                if !self.disputes.contains_key(key) {
                    Err(Error::DisputeDoesNotExist)
                } else if self.disputes[key].is_extended {
                    Err(Error::DisputeAlreadyExtended)
                } else if !self.disputes[key].is_juror(who) {
                    Err(Error::NotAJuryAccount)
                } else {
                    let old_expiry = self.disputes[key].expiration;
                    let new_expiry = deadline(old_expiry, cfg.voting_time_limit);
                    let cleaned = self.finalise_on.insert(
                        old_expiry,
                        self.finalise_on[old_expiry].remove_value(entry_id(key)),
                    );
                    if cleaned[new_expiry].len() >= cfg.bucket_capacity() {
                        Err(Error::TooManyDisputesThisBlock)
                    } else {
                        Ok(())
                    }
                }
            },
            _ => Err(Error::BadOrigin),
        }
    }

    /// The state after the dispute `key` has been extended: it expires one
    /// voting time later than before, its entry in the index has moved to that
    /// block, and it is marked as extended.
    pub open spec fn extended(self, cfg: Config, key: DisputeKey) -> State {
        let dispute = self.disputes[key];
        let old_expiry = dispute.expiration;
        let new_expiry = deadline(old_expiry, cfg.voting_time_limit);
        let cleaned = self.finalise_on.insert(
            old_expiry,
            self.finalise_on[old_expiry].remove_value(entry_id(key)),
        );
        State {
            disputes: self.disputes.insert(
                key,
                DisputeView { expiration: new_expiry, is_extended: true, ..dispute },
            ),
            finalise_on: cleaned.insert(new_expiry, cleaned[new_expiry].push(entry_id(key))),
            events: self.events.push(Event::DisputeExtended { dispute_key: key }),
            ..self
        }
    }

    /// Whether `origin` can decide the dispute `key` over the head of its
    /// jury, and if not, why not.
    pub open spec fn force_outcome(self, origin: Origin, key: DisputeKey) -> Result<(), Error> {
        if origin != Origin::Root {
            Err(Error::BadOrigin)
        } else if !self.disputes.contains_key(key) {
            Err(Error::DisputeDoesNotExist)
        } else {
            Ok(())
        }
    }

    /// The state after the authority has decided the dispute `key`.
    pub open spec fn forced(self, key: DisputeKey, result: DisputeResult) -> State {
        let settled = self.finalised(key);
        State {
            events: settled.events.push(Event::DisputeForced { dispute_key: key, result }),
            ..settled
        }
    }

    /// The state after the entries `ids` have been swept, oldest first: each
    /// entry whose dispute is still open finalises it; any other is ignored.
    pub open spec fn swept(self, ids: Seq<u128>) -> State
        decreases ids.len(),
    {
        if ids.len() == 0 {
            self
        } else {
            let before = self.swept(ids.drop_last());
            let id = ids.last();
            if id <= u32::MAX && before.disputes.contains_key(id as u32) {
                before.finalised(id as u32)
            } else {
                before
            }
        }
    }

    /// The calls of the completion hook that sweeping `ids` makes, in order:
    /// one for each dispute that the sweep finalises, with the result by count
    /// of votes.
    pub open spec fn sweep_calls(self, ids: Seq<u128>) -> Seq<Completion>
        decreases ids.len(),
    {
        if ids.len() == 0 {
            Seq::empty()
        } else {
            let before = self.swept(ids.drop_last());
            let calls = self.sweep_calls(ids.drop_last());
            let id = ids.last();
            if id <= u32::MAX && before.disputes.contains_key(id as u32) {
                let dispute = before.disputes[id as u32];
                calls.push(
                    Completion {
                        key: id as u32,
                        specifiers: dispute.specifiers,
                        result: dispute.winner(),
                    },
                )
            } else {
                calls
            }
        }
    }

    /// This state with the bucket of `block` emptied.
    pub open spec fn drained(self, block: BlockNumber) -> State {
        State { finalise_on: self.finalise_on.insert(block, Seq::empty()), ..self }
    }

    /// The state after the block `block` has begun: its bucket is emptied and
    /// the entries that were in it are swept.
    pub open spec fn initialized(self, block: BlockNumber) -> State {
        self.drained(block).swept(self.finalise_on[block])
    }
}

} // verus!
