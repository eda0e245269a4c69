//! The dispute engine: the store of open disputes and the operations on it.
use crate::disputes::dispute::{Dispute, DisputeKey, DisputeResult, DisputeView};
use crate::disputes::invariants::{lemma_drained_inv, lemma_finalised_inv};
use crate::disputes::model::{entry_id, Completion, Config, Error, Event, State};
use crate::disputes::succession::{
    law_extended, law_finalised, law_forced, law_initialized, law_moved, law_raised, law_unchanged,
    law_voted,
};
use crate::disputes::traits::{lemma_told_push, told, DisputeHooks, DisputeRaiser};
use crate::expiry::ExpiryIndex;
use crate::types::{ensure_root, ensure_signed, AccountId, BlockNumber, Origin, Weight};
use std::collections::BTreeMap;
use vstd::prelude::*;

verus! {

/// The dispute engine.
pub struct Pallet {
    config: Config,
    disputes: BTreeMap<DisputeKey, Dispute>,
    finalise_on: ExpiryIndex,
    now: BlockNumber,
    events: Vec<Event>,
}

impl View for Pallet {
    type V = State;

    closed spec fn view(&self) -> State {
        State {
            disputes: self.disputes@.map_values(|d: Dispute| d@),
            finalise_on: self.finalise_on@,
            now: self.now,
            events: self.events@,
        }
    }
}

impl Pallet {
    /// The limits under which the engine runs.
    pub closed spec fn cfg(&self) -> Config {
        self.config
    }

    /// The engine is within its limits.
    pub closed spec fn wf(&self) -> bool {
        &&& self.finalise_on.wf()
        &&& self.finalise_on.capacity() == self.config.bucket_capacity()
        &&& self@.inv(self.config)
    }

    /// What a well-formed engine holds of its state.
    pub proof fn lemma_wf(&self)
        requires
            self.wf(),
        ensures
            self@.inv(self.cfg()),
    {
    }

    /// An engine without disputes, at block 0.
    pub fn new(config: Config) -> (engine: Pallet)
        ensures
            engine.wf(),
            engine.cfg() == config,
            engine@ == State::empty(),
            engine@.consistent(),
    {
        let engine = Pallet {
            config,
            disputes: BTreeMap::new(),
            finalise_on: ExpiryIndex::new(config.max_disputes_per_block),
            now: 0,
            events: Vec::new(),
        };
        assert(engine@.disputes =~= Map::<DisputeKey, DisputeView>::empty());
        engine
    }

    /// The limits under which the engine runs.
    pub fn config(&self) -> (config: Config)
        ensures
            config == self.cfg(),
    {
        self.config
    }

    /// The current block.
    pub fn block_number(&self) -> (now: BlockNumber)
        ensures
            now == self@.now,
    {
        self.now
    }

    /// Moves the engine to block `now`.
    pub fn set_block_number(&mut self, now: BlockNumber)
        requires
            old(self).wf(),
        ensures
            final(self).wf(),
            final(self).cfg() == old(self).cfg(),
            final(self)@.succeeds(old(self)@, old(self).cfg()),
            final(self)@ == (State { now, ..old(self)@ }),
    {
        proof {
            law_moved(self@, self.config, now);
        }
        self.now = now;
    }

    /// The open dispute under `key`, if there is one.
    pub fn disputes(&self, key: DisputeKey) -> (r: Option<&Dispute>)
        ensures
            match r {
                Some(dispute) => self@.disputes.contains_key(key) && self@.disputes[key]
                    == dispute@,
                None => !self@.disputes.contains_key(key),
            },
    {
        self.disputes.get(&key)
    }

    /// Everything reported so far, oldest first.
    pub fn events(&self) -> (events: &Vec<Event>)
        ensures
            events@ == self@.events,
    {
        &self.events
    }

    /// The number of entries that expire at `block`.
    pub fn expiring_at(&self, block: BlockNumber) -> (n: usize)
        requires
            self.wf(),
        ensures
            n == self@.finalise_on[block].len(),
    {
        self.finalise_on.len_at(block)
    }

    /// Opens a dispute under `dispute_key`, to be decided by `jury` within the
    /// voting time. Refuses a key that is taken, whatever else is asked, then a
    /// panel or a list of specifiers beyond the limits, then a block of expiry
    /// that is full.
    pub fn raise_dispute(
        &mut self,
        dispute_key: DisputeKey,
        raised_by: AccountId,
        jury: Vec<AccountId>,
        specifiers: Vec<u32>,
    ) -> (r: Result<(), Error>)
        requires
            old(self).wf(),
        ensures
            final(self).wf(),
            final(self).cfg() == old(self).cfg(),
            final(self)@.succeeds(old(self)@, old(self).cfg()),
            r == old(self)@.raise_outcome(old(self).cfg(), dispute_key, jury@, specifiers@),
            r.is_ok() ==> final(self)@ == old(self)@.raised(
                old(self).cfg(),
                dispute_key,
                raised_by,
                jury@,
                specifiers@,
            ),
            r.is_err() ==> final(self)@ == old(self)@,
    {
        proof {
            law_unchanged(self@, self.config);
            if self@.raise_outcome(self.config, dispute_key, jury@, specifiers@).is_ok() {
                law_raised(self@, self.config, dispute_key, raised_by, jury@, specifiers@);
            }
        }
        if self.disputes.contains_key(&dispute_key) {
            return Err(Error::DisputeAlreadyExists);
        }
        if jury.len() > self.config.max_jury_size as usize {
            return Err(Error::TooManyJurors);
        }
        if specifiers.len() > self.config.max_specifics as usize {
            return Err(Error::TooManySpecifics);
        }
        let expiration = self.now.saturating_add(self.config.voting_time_limit);
        if self.finalise_on.insert(dispute_key as u128, expiration).is_err() {
            return Err(Error::TooManyDisputesThisBlock);
        }
        let dispute = Dispute::new(raised_by, jury, specifiers, expiration);
        self.disputes.insert(dispute_key, dispute);
        self.events.push(Event::DisputeRaised { dispute_key });
        assert(self@.disputes =~= old(self)@.disputes.insert(dispute_key, dispute@));
        Ok(())
    }

    /// Takes what is left of a dispute that is no longer in the store out of
    /// the index, reports its completion and tells the handler.
    fn settle<H: DisputeHooks>(
        &mut self,
        hooks: &mut H,
        dispute_key: DisputeKey,
        dispute: Dispute,
        result: DisputeResult,
    )
        requires
            old(self).finalise_on.wf(),
            old(hooks).hooks_wf(),
        ensures
            final(self).finalise_on.wf(),
            final(self).finalise_on.capacity() == old(self).finalise_on.capacity(),
            final(self).config == old(self).config,
            final(self).disputes == old(self).disputes,
            final(self).now == old(self).now,
            final(self).finalise_on@ == old(self).finalise_on@.insert(
                dispute.expiration,
                old(self).finalise_on@[dispute.expiration].remove_value(entry_id(dispute_key)),
            ),
            final(self).events@ == old(self).events@.push(
                Event::DisputeCompleted { dispute_key },
            ),
            final(hooks).hooks_wf(),
            H::completed(old(hooks), final(hooks), dispute_key, dispute.specifiers@, result),
    {
        self.finalise_on.remove(dispute_key as u128, dispute.expiration);
        self.events.push(Event::DisputeCompleted { dispute_key });
        hooks.on_dispute_complete(dispute_key, dispute.specifiers, result);
    }

    /// Finalises the dispute `dispute_key` with `result`: removes it, takes it
    /// out of the index, reports its completion and tells the handler. Fails if
    /// no such dispute is open.
    pub fn try_finalise_with_result<H: DisputeHooks>(
        &mut self,
        hooks: &mut H,
        dispute_key: DisputeKey,
        result: DisputeResult,
    ) -> (r: Result<(), Error>)
        requires
            old(self).wf(),
            old(hooks).hooks_wf(),
        ensures
            final(self).wf(),
            final(self).cfg() == old(self).cfg(),
            final(self)@.succeeds(old(self)@, old(self).cfg()),
            final(hooks).hooks_wf(),
            r == (if old(self)@.disputes.contains_key(dispute_key) {
                Ok::<(), Error>(())
            } else {
                Err::<(), Error>(Error::DisputeDoesNotExist)
            }),
            r.is_ok() ==> final(self)@ == old(self)@.finalised(dispute_key) && H::completed(
                old(hooks),
                final(hooks),
                dispute_key,
                old(self)@.disputes[dispute_key].specifiers,
                result,
            ),
            r.is_err() ==> final(self)@ == old(self)@ && *final(hooks) == *old(hooks),
    {
        proof {
            law_unchanged(self@, self.config);
            law_finalised(self@, self.config, dispute_key);
        }
        match self.disputes.remove(&dispute_key) {
            Some(dispute) => {
                assert(self@.disputes =~= old(self)@.disputes.remove(dispute_key));
                self.settle(hooks, dispute_key, dispute, result);
                Ok(())
            },
            None => {
                assert(self@.disputes =~= old(self)@.disputes);
                Err(Error::DisputeDoesNotExist)
            },
        }
    }

    /// Records the vote of a juror on the dispute `dispute_key`. With every
    /// seat of the panel voted, a unanimous panel finalises the dispute: upheld
    /// if all voted for, dismissed if all voted against. A split panel leaves
    /// it open.
    pub fn vote_on_dispute<H: DisputeHooks>(
        &mut self,
        hooks: &mut H,
        origin: Origin,
        dispute_key: DisputeKey,
        is_yay: bool,
    ) -> (r: Result<(), Error>)
        requires
            old(self).wf(),
            old(hooks).hooks_wf(),
        ensures
            final(self).wf(),
            final(self).cfg() == old(self).cfg(),
            final(self)@.succeeds(old(self)@, old(self).cfg()),
            final(hooks).hooks_wf(),
            r == old(self)@.vote_outcome(origin, dispute_key),
            r.is_err() ==> final(self)@ == old(self)@ && *final(hooks) == *old(hooks),
            r.is_ok() ==> final(self)@ == old(self)@.voted(
                origin->Signed_0,
                dispute_key,
                is_yay,
            ),
            r.is_ok() ==> match old(self)@.verdict_after(origin->Signed_0, dispute_key, is_yay) {
                Some(result) => H::completed(
                    old(hooks),
                    final(hooks),
                    dispute_key,
                    old(self)@.disputes[dispute_key].specifiers,
                    result,
                ),
                None => *final(hooks) == *old(hooks),
            },
    {
        proof {
            law_unchanged(self@, self.config);
            if self@.vote_outcome(origin, dispute_key).is_ok() {
                law_voted(self@, self.config, origin->Signed_0, dispute_key, is_yay);
            }
        }
        let who = match ensure_signed(origin) {
            Ok(who) => who,
            Err(_) => {
                return Err(Error::BadOrigin);
            },
        };
        match self.disputes.get(&dispute_key) {
            Some(dispute) => {
                if !dispute.is_juror(&who) {
                    return Err(Error::NotAJuryAccount);
                }
            },
            None => {
                return Err(Error::DisputeDoesNotExist);
            },
        }
        let mut dispute = self.disputes.remove(&dispute_key).unwrap();
        dispute.record_vote(who, is_yay);
        match dispute.verdict() {
            Some(result) => {
                assert(self@.disputes =~= old(self)@.disputes.insert(dispute_key, dispute@).remove(
                    dispute_key,
                ));
                self.settle(hooks, dispute_key, dispute, result);
            },
            None => {
                self.disputes.insert(dispute_key, dispute);
                assert(self@.disputes =~= old(self)@.disputes.insert(dispute_key, dispute@));
            },
        }
        self.events.push(Event::DisputeVotedOn { who });
        Ok(())
    }

    /// Decides the dispute `dispute_key` over the head of its jury. Only the
    /// authority may.
    fn force<H: DisputeHooks>(
        &mut self,
        hooks: &mut H,
        origin: Origin,
        dispute_key: DisputeKey,
        result: DisputeResult,
    ) -> (r: Result<(), Error>)
        requires
            old(self).wf(),
            old(hooks).hooks_wf(),
        ensures
            final(self).wf(),
            final(self).cfg() == old(self).cfg(),
            final(self)@.succeeds(old(self)@, old(self).cfg()),
            final(hooks).hooks_wf(),
            r == old(self)@.force_outcome(origin, dispute_key),
            r.is_ok() ==> final(self)@ == old(self)@.forced(dispute_key, result) && H::completed(
                old(hooks),
                final(hooks),
                dispute_key,
                old(self)@.disputes[dispute_key].specifiers,
                result,
            ),
            r.is_err() ==> final(self)@ == old(self)@ && *final(hooks) == *old(hooks),
    {
        proof {
            law_unchanged(self@, self.config);
            law_forced(self@, self.config, dispute_key, result);
        }
        if ensure_root(origin).is_err() {
            return Err(Error::BadOrigin);
        }
        match self.try_finalise_with_result(hooks, dispute_key, result) {
            Ok(()) => {
                self.events.push(Event::DisputeForced { dispute_key, result });
                Ok(())
            },
            Err(e) => Err(e),
        }
    }

    /// Dismisses the dispute `dispute_key` over the head of its jury. Only the
    /// authority may.
    pub fn force_fail_dispute<H: DisputeHooks>(
        &mut self,
        hooks: &mut H,
        origin: Origin,
        dispute_key: DisputeKey,
    ) -> (r: Result<(), Error>)
        requires
            old(self).wf(),
            old(hooks).hooks_wf(),
        ensures
            final(self).wf(),
            final(self).cfg() == old(self).cfg(),
            final(self)@.succeeds(old(self)@, old(self).cfg()),
            final(hooks).hooks_wf(),
            r == old(self)@.force_outcome(origin, dispute_key),
            r.is_ok() ==> final(self)@ == old(self)@.forced(dispute_key, DisputeResult::Failure)
                && H::completed(
                old(hooks),
                final(hooks),
                dispute_key,
                old(self)@.disputes[dispute_key].specifiers,
                DisputeResult::Failure,
            ),
            r.is_err() ==> final(self)@ == old(self)@ && *final(hooks) == *old(hooks),
    {
        proof {
            law_unchanged(self@, self.config);
        }
        self.force(hooks, origin, dispute_key, DisputeResult::Failure)
    }

    /// Upholds the dispute `dispute_key` over the head of its jury. Only the
    /// authority may.
    pub fn force_succeed_dispute<H: DisputeHooks>(
        &mut self,
        hooks: &mut H,
        origin: Origin,
        dispute_key: DisputeKey,
    ) -> (r: Result<(), Error>)
        requires
            old(self).wf(),
            old(hooks).hooks_wf(),
        ensures
            final(self).wf(),
            final(self).cfg() == old(self).cfg(),
            final(self)@.succeeds(old(self)@, old(self).cfg()),
            final(hooks).hooks_wf(),
            r == old(self)@.force_outcome(origin, dispute_key),
            r.is_ok() ==> final(self)@ == old(self)@.forced(dispute_key, DisputeResult::Success)
                && H::completed(
                old(hooks),
                final(hooks),
                dispute_key,
                old(self)@.disputes[dispute_key].specifiers,
                DisputeResult::Success,
            ),
            r.is_err() ==> final(self)@ == old(self)@ && *final(hooks) == *old(hooks),
    {
        proof {
            law_unchanged(self@, self.config);
        }
        self.force(hooks, origin, dispute_key, DisputeResult::Success)
    }

    /// Prolongs the dispute `dispute_key` by one voting time. A juror may do so
    /// once for each dispute.
    pub fn extend_dispute(&mut self, origin: Origin, dispute_key: DisputeKey) -> (r: Result<
        (),
        Error,
    >)
        requires
            old(self).wf(),
        ensures
            final(self).wf(),
            final(self).cfg() == old(self).cfg(),
            final(self)@.succeeds(old(self)@, old(self).cfg()),
            r == old(self)@.extend_outcome(old(self).cfg(), origin, dispute_key),
            r.is_ok() ==> final(self)@ == old(self)@.extended(old(self).cfg(), dispute_key),
            r.is_err() ==> final(self)@ == old(self)@,
    {
        proof {
            law_unchanged(self@, self.config);
            if self@.extend_outcome(self.config, origin, dispute_key).is_ok() {
                law_extended(self@, self.config, origin, dispute_key);
            }
        }
        let who = match ensure_signed(origin) {
            Ok(who) => who,
            Err(_) => {
                return Err(Error::BadOrigin);
            },
        };
        let old_expiry = match self.disputes.get(&dispute_key) {
            Some(dispute) => {
                if dispute.is_extended {
                    return Err(Error::DisputeAlreadyExtended);
                }
                if !dispute.is_juror(&who) {
                    return Err(Error::NotAJuryAccount);
                }
                dispute.expiration
            },
            None => {
                return Err(Error::DisputeDoesNotExist);
            },
        };
        let id = dispute_key as u128;
        let new_expiry = old_expiry.saturating_add(self.config.voting_time_limit);
        proof {
            let bucket = self.finalise_on@[old_expiry];
            bucket.index_of_first_ensures(id);
            self.finalise_on.lemma_within_capacity(old_expiry);
            self.finalise_on.lemma_within_capacity(new_expiry);
            let cleaned = self.finalise_on@.insert(old_expiry, bucket.remove_value(id));
            if new_expiry == old_expiry {
                assert(cleaned[new_expiry] == bucket.remove_value(id));
            } else {
                assert(cleaned[new_expiry] == self.finalise_on@[new_expiry]);
            }
        }
        let room = if new_expiry == old_expiry {
            self.finalise_on.contains(id, old_expiry) || self.finalise_on.has_room(new_expiry)
        } else {
            self.finalise_on.has_room(new_expiry)
        };
        if !room {
            return Err(Error::TooManyDisputesThisBlock);
        }
        self.finalise_on.remove(id, old_expiry);
        let inserted = self.finalise_on.insert(id, new_expiry);
        assert(inserted.is_ok());
        let mut dispute = self.disputes.remove(&dispute_key).unwrap();
        dispute.expiration = new_expiry;
        dispute.is_extended = true;
        self.disputes.insert(dispute_key, dispute);
        self.events.push(Event::DisputeExtended { dispute_key });
        assert(self@.disputes =~= old(self)@.disputes.insert(dispute_key, dispute@));
        Ok(())
    }

    /// Begins the block `block`: empties its bucket and finalises every
    /// dispute that an entry of the bucket names and that is still open, with
    /// the result by count of votes. Entries of disputes that are gone are
    /// passed over. The cost counts one read for the bucket and one for each
    /// entry, one write for the bucket and one for each dispute finalised.
    pub fn on_initialize<H: DisputeHooks>(&mut self, hooks: &mut H, block: BlockNumber) -> (weight:
        Weight)
        requires
            old(self).wf(),
            old(hooks).hooks_wf(),
        ensures
            final(self).wf(),
            final(self).cfg() == old(self).cfg(),
            final(self)@.succeeds(old(self)@, old(self).cfg()),
            final(hooks).hooks_wf(),
            final(self)@ == old(self)@.initialized(block),
            told(
                *old(hooks),
                *final(hooks),
                old(self)@.drained(block).sweep_calls(old(self)@.finalise_on[block]),
            ),
            weight.reads == old(self)@.finalise_on[block].len() + 1,
            weight.writes == old(self)@.drained(block).sweep_calls(
                old(self)@.finalise_on[block],
            ).len() + 1,
    {
        proof {
            law_initialized(self@, self.config, block);
        }
        proof {
            self.finalise_on.lemma_within_capacity(block);
            lemma_drained_inv(old(self)@, self.config, block);
        }
        let ids = self.finalise_on.take(block);
        let ghost start = self@;
        let ghost first = *hooks;
        let mut finalised: u64 = 0;
        let mut i: usize = 0;
        assert(ids@.take(0) =~= Seq::<u128>::empty());
        while i < ids.len()
            invariant
                i <= ids@.len(),
                ids@.len() <= 1000,
                self.finalise_on.wf(),
                self.finalise_on.capacity() == self.config.bucket_capacity(),
                self.config == old(self).config,
                self@ == start.swept(ids@.take(i as int)),
                self@.inv(self.config),
                hooks.hooks_wf(),
                told(first, *hooks, start.sweep_calls(ids@.take(i as int))),
                finalised == start.sweep_calls(ids@.take(i as int)).len(),
                finalised <= i,
            decreases ids@.len() - i,
        {
            let id = ids[i];
            let ghost done = ids@.take(i as int);
            let ghost next = ids@.take(i + 1);
            let ghost before = self@;
            let ghost calls = start.sweep_calls(done);
            assert(next.drop_last() == done);
            assert(next.last() == id);
            if id <= u32::MAX as u128 {
                let key = id as u32;
                match self.disputes.remove(&key) {
                    Some(dispute) => {
                        let result = dispute.calculate_winner();
                        let ghost mid = *hooks;
                        proof {
                            lemma_finalised_inv(before, self.config, key);
                        }
                        assert(self@.disputes =~= before.disputes.remove(key));
                        self.settle(hooks, key, dispute, result);
                        finalised += 1;
                        proof {
                            let call = Completion {
                                key,
                                specifiers: dispute@.specifiers,
                                result,
                            };
                            assert(start.sweep_calls(next) == calls.push(call));
                            lemma_told_push(first, mid, *hooks, calls, call);
                        }
                    },
                    None => {
                        assert(self@.disputes =~= before.disputes);
                        assert(start.sweep_calls(next) == calls);
                    },
                }
            } else {
                assert(start.sweep_calls(next) == calls);
            }
            i += 1;
        }
        assert(ids@.take(i as int) == ids@);
        Weight::reads_writes(ids.len() as u64 + 1, finalised + 1)
    }
}

impl DisputeRaiser for Pallet {
    open spec fn raiser_wf(&self) -> bool {
        self.wf()
    }

    open spec fn raised(
        pre: &Self,
        post: &Self,
        key: DisputeKey,
        raised_by: AccountId,
        jury: Seq<AccountId>,
        specifiers: Seq<u32>,
        refusal: Option<Error>,
    ) -> bool {
        &&& post.cfg() == pre.cfg()
        &&& post@.succeeds(pre@, pre.cfg())
        &&& refusal == pre@.raise_outcome(pre.cfg(), key, jury, specifiers).err()
        &&& refusal.is_none() ==> post@ == pre@.raised(pre.cfg(), key, raised_by, jury, specifiers)
        &&& refusal.is_some() ==> post@ == pre@
    }

    fn raise_dispute(
        &mut self,
        dispute_key: DisputeKey,
        raised_by: AccountId,
        jury: Vec<AccountId>,
        specifiers: Vec<u32>,
    ) -> (r: Result<(), Error>) {
        Pallet::raise_dispute(self, dispute_key, raised_by, jury, specifiers)
    }
}

} // verus!
