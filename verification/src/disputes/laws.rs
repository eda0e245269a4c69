//! What holds of the dispute engine whatever sequence of operations it sees.
use crate::disputes::dispute::{DisputeKey, DisputeResult};
use crate::disputes::model::{deadline, Config, Error, State};
use crate::per_account::{lemma_position_of, recorded};
use crate::types::{AccountId, Origin};
use vstd::prelude::*;

verus! {

/// A key that is taken is refused as taken, whatever the panel and the
/// specifiers of the new dispute are.
pub proof fn law_dispute_keys_are_unique(
    s: State,
    cfg: Config,
    key: DisputeKey,
    jury: Seq<AccountId>,
    specifiers: Seq<u32>,
)
    requires
        s.disputes.contains_key(key),
    ensures
        s.raise_outcome(cfg, key, jury, specifiers) == Err::<(), Error>(
            Error::DisputeAlreadyExists,
        ),
{
}

/// An account that is not on the panel of a dispute cannot vote on it, whether
/// the dispute exists or not.
pub proof fn law_only_jurors_vote(s: State, origin: Origin, key: DisputeKey)
    requires
        match origin {
            Origin::Signed(who) => !(s.disputes.contains_key(key) && s.disputes[key].is_juror(who)),
            _ => true,
        },
    ensures
        s.vote_outcome(origin, key).is_err(),
{
}

/// On a panel of two, two votes for uphold the dispute and remove it, two
/// votes against dismiss it and remove it, and one of each leave it open.
pub proof fn law_panel_of_two(
    s: State,
    key: DisputeKey,
    first: AccountId,
    second: AccountId,
    first_vote: bool,
    second_vote: bool,
)
    requires
        s.disputes.contains_key(key),
        s.disputes[key].jury == seq![first, second],
        s.disputes[key].votes.len() == 0,
        first != second,
    ensures
        s.vote_outcome(Origin::Signed(first), key).is_ok(),
        s.verdict_after(first, key, first_vote).is_none(),
        s.voted(first, key, first_vote).vote_outcome(Origin::Signed(second), key).is_ok(),
        s.voted(first, key, first_vote).verdict_after(second, key, second_vote) == (if first_vote
            && second_vote {
            Some(DisputeResult::Success)
        } else if !first_vote && !second_vote {
            Some(DisputeResult::Failure)
        } else {
            None::<DisputeResult>
        }),
        s.voted(first, key, first_vote).voted(second, key, second_vote).disputes.contains_key(key)
            == (first_vote != second_vote),
{
    let jury = s.disputes[key].jury;
    assert(jury[0] == first && jury[1] == second);
    let none = s.disputes[key].votes;
    lemma_position_of(none, first);
    let one = recorded(none, first, first_vote);
    assert(one =~= seq![(first, first_vote)]);
    let after_first = s.voted(first, key, first_vote);
    assert(after_first.disputes[key].votes == one);
    lemma_position_of(one, second);
    assert(one[0].0 == first);
    let two = recorded(one, second, second_vote);
    assert(two =~= seq![(first, first_vote), (second, second_vote)]);
    assert(two[0].1 == first_vote && two[1].1 == second_vote);
    assert(after_first.disputes[key].with_vote(second, second_vote).votes == two);
}

/// A dispute can be extended once: after an extension every further one is
/// refused, and the dispute expires one voting time later than before, to the
/// block, unless that would be past the last block there is.
pub proof fn law_extension_is_one_shot(
    s: State,
    cfg: Config,
    origin: Origin,
    again: AccountId,
    key: DisputeKey,
)
    requires
        s.extend_outcome(cfg, origin, key).is_ok(),
    ensures
        s.extended(cfg, key).extend_outcome(cfg, Origin::Signed(again), key) == Err::<(), Error>(
            Error::DisputeAlreadyExtended,
        ),
        s.extended(cfg, key).disputes[key].expiration == deadline(
            s.disputes[key].expiration,
            cfg.voting_time_limit,
        ),
        s.disputes[key].expiration + cfg.voting_time_limit <= u32::MAX ==> s.extended(
            cfg,
            key,
        ).disputes[key].expiration == s.disputes[key].expiration + cfg.voting_time_limit,
{
}

/// A block takes as many disputes as the engine allows and not one more: a
/// dispute that is otherwise in order is raised while its block of expiry has
/// room, and refused once that block is full.
pub proof fn law_capacity_ceiling(
    s: State,
    cfg: Config,
    key: DisputeKey,
    raised_by: AccountId,
    jury: Seq<AccountId>,
    specifiers: Seq<u32>,
)
    requires
        !s.disputes.contains_key(key),
        jury.len() <= cfg.max_jury_size,
        specifiers.len() <= cfg.max_specifics,
    ensures
        ({
            let block = deadline(s.now, cfg.voting_time_limit);
            let outcome = s.raise_outcome(cfg, key, jury, specifiers);
            &&& s.finalise_on[block].len() >= cfg.bucket_capacity() ==> outcome == Err::<
                (),
                Error,
            >(Error::TooManyDisputesThisBlock)
            &&& s.finalise_on[block].len() < cfg.bucket_capacity() ==> outcome.is_ok() && s.raised(
                cfg,
                key,
                raised_by,
                jury,
                specifiers,
            ).finalise_on[block].len() == s.finalise_on[block].len() + 1
        }),
{
}

} // verus!
