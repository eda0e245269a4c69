//! The tally of a round is the weight behind its ballots: each side carries
//! the summed contributions of the accounts whose last vote was for that side,
//! every account once, whatever the sequence of votes and changes of mind.
use crate::per_account::{
    distinct_accounts, lemma_position_is, lemma_position_of, lemma_recorded_distinct, position_of,
    value_of,
};
use crate::proposals::consistency::round_in_order;
use crate::proposals::model::{Config, State};
use crate::proposals::project::{total_contributed, Contribution, ProjectView, ProposedMilestone};
use crate::proposals::round::{round_id, RoundView};
use crate::types::{AccountId, AgreementHash, CurrencyId, FundingType, ProjectKey};
use vstd::prelude::*;

verus! {

/// The weight of the vote of `who`: what `who` has contributed.
pub open spec fn weight_of(contributions: Seq<(AccountId, Contribution)>, who: AccountId) -> int {
    match value_of(contributions, who) {
        Some(contribution) => contribution.value as int,
        None => 0,
    }
}

/// The sum of the contributions.
pub open spec fn exact_total(contributions: Seq<(AccountId, Contribution)>) -> int
    decreases contributions.len(),
{
    if contributions.len() == 0 {
        0
    } else {
        exact_total(contributions.drop_last()) + contributions.last().1.value
    }
}

/// The summed weight of the ballots for `side`.
pub open spec fn side_weight(
    ballots: Seq<(AccountId, bool)>,
    contributions: Seq<(AccountId, Contribution)>,
    side: bool,
) -> int
    decreases ballots.len(),
{
    if ballots.len() == 0 {
        0
    } else {
        side_weight(ballots.drop_last(), contributions, side) + if ballots.last().1 == side {
            weight_of(contributions, ballots.last().0)
        } else {
            0
        }
    }
}

/// Whether the tally of `round` is the weight behind its ballots, one ballot
/// for each account.
pub open spec fn round_tallied(
    round: RoundView,
    contributions: Seq<(AccountId, Contribution)>,
) -> bool {
    &&& distinct_accounts(round.ballots)
    &&& round.vote.yay == side_weight(round.ballots, contributions, true)
    &&& round.vote.nay == side_weight(round.ballots, contributions, false)
}

/// A sum of contributions is not negative.
pub proof fn lemma_exact_total_nonnegative(contributions: Seq<(AccountId, Contribution)>)
    ensures
        0 <= exact_total(contributions),
    decreases contributions.len(),
{
    if contributions.len() > 0 {
        lemma_exact_total_nonnegative(contributions.drop_last());
    }
}

/// While the sum of the contributions is an amount, it is what the project
/// has raised.
pub proof fn lemma_total_is_exact(contributions: Seq<(AccountId, Contribution)>)
    requires
        exact_total(contributions) <= u128::MAX,
    ensures
        total_contributed(contributions) == exact_total(contributions),
    decreases contributions.len(),
{
    if contributions.len() > 0 {
        lemma_exact_total_nonnegative(contributions.drop_last());
        lemma_total_is_exact(contributions.drop_last());
    }
}

/// Without one of the contributions, the sum is less by that contribution.
pub proof fn lemma_exact_total_remove(contributions: Seq<(AccountId, Contribution)>, at: int)
    requires
        0 <= at < contributions.len(),
    ensures
        exact_total(contributions.remove(at)) == exact_total(contributions)
            - contributions[at].1.value,
    decreases contributions.len(),
{
    let rest = contributions.remove(at);
    if at == contributions.len() - 1 {
        assert(rest =~= contributions.drop_last());
    } else {
        lemma_exact_total_remove(contributions.drop_last(), at);
        assert(rest.drop_last() =~= contributions.drop_last().remove(at));
        assert(rest.last() == contributions.last());
    }
}

/// Without the contribution of one account, every other account has
/// contributed what it had.
pub proof fn lemma_weight_of_remove(
    contributions: Seq<(AccountId, Contribution)>,
    at: int,
    who: AccountId,
)
    requires
        distinct_accounts(contributions),
        0 <= at < contributions.len(),
        who != contributions[at].0,
    ensures
        distinct_accounts(contributions.remove(at)),
        weight_of(contributions.remove(at), who) == weight_of(contributions, who),
{
    let rest = contributions.remove(at);
    lemma_position_of(contributions, who);
    lemma_position_of(rest, who);
    assert forall|i: int, j: int| 0 <= i < j < rest.len() implies (#[trigger] rest[i]).0
        != (#[trigger] rest[j]).0 by {
        let a = if i < at { i } else { i + 1 };
        let b = if j < at { j } else { j + 1 };
        assert(rest[i] == contributions[a]);
        assert(rest[j] == contributions[b]);
    }
    match position_of(contributions, who) {
        Some(p) => {
            let q = if p < at { p } else { p - 1 };
            assert(rest[q] == contributions[p]);
            assert forall|j: int| 0 <= j < q implies (#[trigger] rest[j]).0 != who by {
                let a = if j < at { j } else { j + 1 };
                assert(rest[j] == contributions[a]);
            }
            lemma_position_is(rest, who, q);
        },
        None => {
            match position_of(rest, who) {
                Some(q) => {
                    let a = if q < at { q } else { q + 1 };
                    assert(rest[q] == contributions[a]);
                },
                None => {},
            }
        },
    }
}

/// Ballots weigh the same under contributions that give their accounts the
/// same weight.
pub proof fn lemma_side_weight_same(
    ballots: Seq<(AccountId, bool)>,
    one: Seq<(AccountId, Contribution)>,
    other: Seq<(AccountId, Contribution)>,
    side: bool,
)
    requires
        forall|i: int|
            0 <= i < ballots.len() ==> weight_of(one, (#[trigger] ballots[i]).0) == weight_of(
                other,
                ballots[i].0,
            ),
    ensures
        side_weight(ballots, one, side) == side_weight(ballots, other, side),
    decreases ballots.len(),
{
    if ballots.len() > 0 {
        let front = ballots.drop_last();
        assert forall|i: int| 0 <= i < front.len() implies weight_of(
            one,
            (#[trigger] front[i]).0,
        ) == weight_of(other, front[i].0) by {
            assert(front[i] == ballots[i]);
        }
        lemma_side_weight_same(front, one, other, side);
        assert(ballots.last() == ballots[ballots.len() - 1]);
    }
}

/// The weight of a side is not negative.
pub proof fn lemma_side_weight_nonnegative(
    ballots: Seq<(AccountId, bool)>,
    contributions: Seq<(AccountId, Contribution)>,
    side: bool,
)
    ensures
        0 <= side_weight(ballots, contributions, side),
    decreases ballots.len(),
{
    if ballots.len() > 0 {
        lemma_side_weight_nonnegative(ballots.drop_last(), contributions, side);
    }
}

/// The ballots of distinct accounts never weigh more, both sides together,
/// than the contributions sum up to.
pub proof fn lemma_ballots_within_total(
    ballots: Seq<(AccountId, bool)>,
    contributions: Seq<(AccountId, Contribution)>,
)
    requires
        distinct_accounts(ballots),
        distinct_accounts(contributions),
    ensures
        side_weight(ballots, contributions, true) + side_weight(ballots, contributions, false)
            <= exact_total(contributions),
    decreases ballots.len(),
{
    if ballots.len() == 0 {
        lemma_exact_total_nonnegative(contributions);
    } else {
        let front = ballots.drop_last();
        let who = ballots.last().0;
        assert forall|i: int, j: int| 0 <= i < j < front.len() implies (#[trigger] front[i]).0
            != (#[trigger] front[j]).0 by {
            assert(front[i] == ballots[i]);
            assert(front[j] == ballots[j]);
        }
        lemma_position_of(contributions, who);
        match position_of(contributions, who) {
            Some(at) => {
                let rest = contributions.remove(at);
                assert forall|i: int| 0 <= i < front.len() implies weight_of(
                    contributions,
                    (#[trigger] front[i]).0,
                ) == weight_of(rest, front[i].0) by {
                    assert(front[i] == ballots[i]);
                    assert(ballots[ballots.len() - 1].0 == who);
                    lemma_weight_of_remove(contributions, at, front[i].0);
                }
                lemma_side_weight_same(front, contributions, rest, true);
                lemma_side_weight_same(front, contributions, rest, false);
                if front.len() == 0 {
                    assert(distinct_accounts(rest)) by {
                        assert forall|i: int, j: int| 0 <= i < j < rest.len() implies (
                        #[trigger] rest[i]).0 != (#[trigger] rest[j]).0 by {
                            let a = if i < at { i } else { i + 1 };
                            let b = if j < at { j } else { j + 1 };
                            assert(rest[i] == contributions[a]);
                            assert(rest[j] == contributions[b]);
                        }
                    }
                } else {
                    assert(front[0] == ballots[0]);
                    assert(ballots[ballots.len() - 1].0 == who);
                    lemma_weight_of_remove(contributions, at, front[0].0);
                }
                lemma_ballots_within_total(front, rest);
                lemma_exact_total_remove(contributions, at);
            },
            None => {
                lemma_ballots_within_total(front, contributions);
            },
        }
    }
}

/// A ballot that changes sides takes its weight from the one side to the
/// other; one that stays leaves both sides as they were.
pub proof fn lemma_side_weight_update(
    ballots: Seq<(AccountId, bool)>,
    contributions: Seq<(AccountId, Contribution)>,
    at: int,
    to: bool,
    side: bool,
)
    requires
        0 <= at < ballots.len(),
    ensures
        side_weight(ballots.update(at, (ballots[at].0, to)), contributions, side) == side_weight(
            ballots,
            contributions,
            side,
        ) + (if to == side {
            weight_of(contributions, ballots[at].0)
        } else {
            0
        }) - (if ballots[at].1 == side {
            weight_of(contributions, ballots[at].0)
        } else {
            0
        }),
    decreases ballots.len(),
{
    let after = ballots.update(at, (ballots[at].0, to));
    if at == ballots.len() - 1 {
        assert(after.drop_last() =~= ballots.drop_last());
        assert(after.last() == (ballots[at].0, to));
    } else {
        lemma_side_weight_update(ballots.drop_last(), contributions, at, to, side);
        assert(after.drop_last() =~= ballots.drop_last().update(at, (ballots[at].0, to)));
        assert(after.last() == ballots.last());
    }
}

/// The weight of a side is at least the weight of each ballot for it.
pub proof fn lemma_side_weight_holds(
    ballots: Seq<(AccountId, bool)>,
    contributions: Seq<(AccountId, Contribution)>,
    at: int,
)
    requires
        0 <= at < ballots.len(),
    ensures
        weight_of(contributions, ballots[at].0) <= side_weight(
            ballots,
            contributions,
            ballots[at].1,
        ),
    decreases ballots.len(),
{
    lemma_side_weight_nonnegative(ballots.drop_last(), contributions, ballots[at].1);
    if at < ballots.len() - 1 {
        lemma_side_weight_holds(ballots.drop_last(), contributions, at);
    }
}

/// A vote keeps the tally of its round the weight behind the ballots: a first
/// vote adds the weight of its account to its side, a repeated one changes
/// nothing, a changed one moves the weight, and no side ever outgrows what the
/// contributions sum up to.
pub proof fn law_tally_is_the_weight_of_the_ballots(
    round: RoundView,
    contributions: Seq<(AccountId, Contribution)>,
    who: AccountId,
    approve: bool,
)
    requires
        round_tallied(round, contributions),
        distinct_accounts(contributions),
        exact_total(contributions) <= u128::MAX,
        value_of(contributions, who).is_some(),
    ensures
        round_tallied(
            round.with_ballot(who, approve, value_of(contributions, who).unwrap().value),
            contributions,
        ),
        round.vote.yay + round.vote.nay <= exact_total(contributions),
{
    let weight = value_of(contributions, who).unwrap().value;
    let after = round.with_ballot(who, approve, weight);
    lemma_recorded_distinct(round.ballots, who, approve);
    lemma_ballots_within_total(round.ballots, contributions);
    lemma_ballots_within_total(after.ballots, contributions);
    lemma_side_weight_nonnegative(after.ballots, contributions, true);
    lemma_side_weight_nonnegative(after.ballots, contributions, false);
    lemma_position_of(round.ballots, who);
    match position_of(round.ballots, who) {
        Some(at) => {
            lemma_side_weight_update(round.ballots, contributions, at, approve, true);
            lemma_side_weight_update(round.ballots, contributions, at, approve, false);
            lemma_side_weight_holds(round.ballots, contributions, at);
            if round.ballots[at].1 == approve {
                assert(after.ballots =~= round.ballots);
            }
        },
        None => {
            assert(after.ballots.drop_last() =~= round.ballots);
            assert(after.ballots.last() == (who, approve));
        },
    }
}

impl ProjectView {
    /// Whether every contributor has contributed once and the contributions
    /// sum up to an amount.
    pub open spec fn well_funded(self) -> bool {
        &&& distinct_accounts(self.contributions)
        &&& exact_total(self.contributions) <= u128::MAX
    }
}

/// Whether the tally of the round under `id` is the weight behind its ballots,
/// if its project exists and is well funded.
pub open spec fn round_weighed(s: State, id: u128) -> bool {
    let key = s.rounds[id].project_key;
    s.projects.contains_key(key) && s.projects[key].well_funded() ==> round_tallied(
        s.rounds[id],
        s.projects[key].contributions,
    )
}

/// The tally of every open round is the weight behind its ballots.
pub open spec fn tallied(s: State) -> bool {
    forall|id: u128| #[trigger] s.rounds.contains_key(id) ==> round_weighed(s, id)
}

/// Tallies stay the weight behind their ballots when rounds are taken away
/// and projects are changed or taken away without a change to their
/// contributions.
pub proof fn lemma_tallied_shrinks(before: State, after: State)
    requires
        tallied(before),
        forall|id: u128| #[trigger]
            after.rounds.contains_key(id) ==> before.rounds.contains_key(id) && after.rounds[id]
                == before.rounds[id],
        forall|key: ProjectKey| #[trigger]
            after.projects.contains_key(key) ==> before.projects.contains_key(key)
                && after.projects[key].contributions == before.projects[key].contributions,
    ensures
        tallied(after),
{
    assert forall|id: u128| #[trigger] after.rounds.contains_key(id) implies round_weighed(
        after,
        id,
    ) by {
        assert(before.rounds.contains_key(id));
        assert(round_weighed(before, id));
        let key = after.rounds[id].project_key;
        if after.projects.contains_key(key) {
            assert(before.projects.contains_key(key));
        }
    }
}

/// Creating a project leaves every tally the weight behind its ballots.
pub proof fn lemma_converted_tallied(
    s: State,
    cfg: Config,
    currency_id: CurrencyId,
    contributions: Seq<(AccountId, Contribution)>,
    brief_hash: AgreementHash,
    beneficiary: AccountId,
    milestones: Seq<ProposedMilestone>,
    funding_type: FundingType,
)
    requires
        tallied(s),
        s.consistent(),
        s.project_count < u32::MAX,
    ensures
        tallied(
            s.converted(
                cfg,
                currency_id,
                contributions,
                brief_hash,
                beneficiary,
                milestones,
                funding_type,
            ),
        ),
{
    let after = s.converted(
        cfg,
        currency_id,
        contributions,
        brief_hash,
        beneficiary,
        milestones,
        funding_type,
    );
    assert forall|id: u128| #[trigger] after.rounds.contains_key(id) implies round_weighed(
        after,
        id,
    ) by {
        assert(s.rounds.contains_key(id));
        assert(round_weighed(s, id));
        assert(round_in_order(s, id));
    }
}

/// Opening a round whose tally is the weight behind its ballots leaves every
/// tally so.
pub proof fn lemma_round_opened_tallied(s: State, round: RoundView)
    requires
        tallied(s),
        s.projects.contains_key(round.project_key) ==> round_tallied(
            round,
            s.projects[round.project_key].contributions,
        ),
    ensures
        tallied(s.round_opened(round)),
{
    let after = s.round_opened(round);
    let id = round_id(round.round_type, round.project_key, round.milestone_key);
    assert forall|other: u128| #[trigger] after.rounds.contains_key(other) implies round_weighed(
        after,
        other,
    ) by {
        if other != id {
            assert(s.rounds.contains_key(other));
            assert(round_weighed(s, other));
        }
    }
}

/// Counting the vote of a contributor in an open round of their project
/// leaves every tally the weight behind its ballots.
pub proof fn lemma_ballot_tallied(s: State, id: u128, who: AccountId, approve: bool)
    requires
        tallied(s),
        s.rounds.contains_key(id),
        s.projects.contains_key(s.rounds[id].project_key),
        s.projects[s.rounds[id].project_key].contribution_of(who).is_some(),
    ensures
        tallied(
            State {
                rounds: s.rounds.insert(
                    id,
                    s.rounds[id].with_ballot(
                        who,
                        approve,
                        s.projects[s.rounds[id].project_key].contribution_of(who).unwrap().value,
                    ),
                ),
                ..s
            },
        ),
{
    let project = s.projects[s.rounds[id].project_key];
    let weight = project.contribution_of(who).unwrap().value;
    let after = State {
        rounds: s.rounds.insert(id, s.rounds[id].with_ballot(who, approve, weight)),
        ..s
    };
    assert(round_weighed(s, id));
    if project.well_funded() {
        law_tally_is_the_weight_of_the_ballots(s.rounds[id], project.contributions, who, approve);
    }
    assert forall|other: u128| #[trigger] after.rounds.contains_key(other) implies round_weighed(
        after,
        other,
    ) by {
        if other != id {
            assert(s.rounds.contains_key(other));
            assert(round_weighed(s, other));
        }
    }
}

} // verus!
