//! Tables with one entry for each account: the entries of a panel, the ballots of
//! a round, the contributions to a project.
use crate::types::AccountId;
use vstd::prelude::*;

verus! {

/// The position of the entry of `who`, if `who` has one.
pub open spec fn position_of<V>(entries: Seq<(AccountId, V)>, who: AccountId) -> Option<int>
    decreases entries.len(),
{
    if entries.len() == 0 {
        None
    } else if entries.last().0 == who {
        match position_of(entries.drop_last(), who) {
            Some(i) => Some(i),
            None => Some(entries.len() - 1),
        }
    } else {
        position_of(entries.drop_last(), who)
    }
}

/// The value entered for `who`, if there is one.
pub open spec fn value_of<V>(entries: Seq<(AccountId, V)>, who: AccountId) -> Option<V> {
    match position_of(entries, who) {
        Some(i) => Some(entries[i].1),
        None => None,
    }
}

/// The table after `value` has been entered for `who`: a first entry is added
/// at the end, a later one replaces the earlier one of the same account.
pub open spec fn recorded<V>(entries: Seq<(AccountId, V)>, who: AccountId, value: V) -> Seq<
    (AccountId, V),
> {
    match position_of(entries, who) {
        Some(i) => entries.update(i, (who, value)),
        None => entries.push((who, value)),
    }
}

/// No account has two entries.
pub open spec fn distinct_accounts<V>(entries: Seq<(AccountId, V)>) -> bool {
    forall|i: int, j: int|
        0 <= i < j < entries.len() ==> (#[trigger] entries[i]).0 != (#[trigger] entries[j]).0
}

/// What a position found by `position_of` is: the first entry of the account.
pub proof fn lemma_position_of<V>(entries: Seq<(AccountId, V)>, who: AccountId)
    ensures
        match position_of(entries, who) {
            Some(i) => 0 <= i < entries.len() && entries[i].0 == who && forall|j: int|
                0 <= j < i ==> (#[trigger] entries[j]).0 != who,
            None => forall|j: int| 0 <= j < entries.len() ==> (#[trigger] entries[j]).0 != who,
        },
    decreases entries.len(),
{
    if entries.len() > 0 {
        let front = entries.drop_last();
        lemma_position_of(front, who);
        assert(forall|j: int| 0 <= j < front.len() ==> front[j] == entries[j]);
        match position_of(front, who) {
            Some(i) => {
                assert(front[i] == entries[i]);
            },
            None => {
                assert forall|j: int| 0 <= j < entries.len() - 1 implies (#[trigger] entries[j]).0
                    != who by {
                    assert(front[j] == entries[j]);
                }
            },
        }
    }
}

/// A position at which the entry of `who` stands, with no entry of `who`
/// before it, is the position of the entry of `who`.
pub proof fn lemma_position_is<V>(entries: Seq<(AccountId, V)>, who: AccountId, at: int)
    requires
        0 <= at < entries.len(),
        entries[at].0 == who,
        forall|j: int| 0 <= j < at ==> (#[trigger] entries[j]).0 != who,
    ensures
        position_of(entries, who) == Some(at),
{
    lemma_position_of(entries, who);
}

/// Entering a value keeps the accounts of a table distinct.
pub proof fn lemma_recorded_distinct<V>(entries: Seq<(AccountId, V)>, who: AccountId, value: V)
    requires
        distinct_accounts(entries),
    ensures
        distinct_accounts(recorded(entries, who, value)),
        value_of(recorded(entries, who, value), who) == Some(value),
        recorded(entries, who, value).len() >= entries.len(),
        forall|i: int|
            0 <= i < entries.len() ==> (#[trigger] recorded(entries, who, value)[i]).0
                == entries[i].0,
{
    lemma_position_of(entries, who);
    let after = recorded(entries, who, value);
    match position_of(entries, who) {
        Some(p) => {
            assert forall|i: int, j: int| 0 <= i < j < after.len() implies (#[trigger] after[i]).0
                != (#[trigger] after[j]).0 by {
                assert(after[i].0 == entries[i].0);
                assert(after[j].0 == entries[j].0);
            }
            assert forall|j: int| 0 <= j < p implies (#[trigger] after[j]).0 != who by {
                assert(after[j] == entries[j]);
            }
            lemma_position_is(after, who, p);
        },
        None => {
            assert forall|i: int, j: int| 0 <= i < j < after.len() implies (#[trigger] after[i]).0
                != (#[trigger] after[j]).0 by {
                assert(after[i] == entries[i]);
                if j < entries.len() {
                    assert(after[j] == entries[j]);
                }
            }
            assert forall|j: int| 0 <= j < entries.len() implies (#[trigger] after[j]).0
                != who by {
                assert(after[j] == entries[j]);
            }
            lemma_position_is(after, who, entries.len() as int);
        },
    }
}

/// The position of the entry of `who`, if `who` has one.
pub fn find_entry<V>(entries: &Vec<(AccountId, V)>, who: &AccountId) -> (r: Option<usize>)
    ensures
        match r {
            Some(i) => position_of(entries@, *who) == Some(i as int) && i < entries@.len(),
            None => position_of(entries@, *who).is_none(),
        },
{
    proof {
        lemma_position_of(entries@, *who);
    }
    let mut i: usize = 0;
    while i < entries.len()
        invariant
            i <= entries@.len(),
            forall|j: int| 0 <= j < i ==> (#[trigger] entries@[j]).0 != *who,
        decreases entries@.len() - i,
    {
        if entries[i].0.same(who) {
            proof {
                lemma_position_of(entries@, *who);
            }
            return Some(i);
        }
        i += 1;
    }
    None
}

/// Whether no account has two entries.
pub fn all_distinct<V>(entries: &Vec<(AccountId, V)>) -> (r: bool)
    ensures
        r == distinct_accounts(entries@),
{
    let mut j: usize = 0;
    while j < entries.len()
        invariant
            j <= entries@.len(),
            forall|a: int, b: int|
                0 <= a < b < j ==> (#[trigger] entries@[a]).0 != (#[trigger] entries@[b]).0,
        decreases entries@.len() - j,
    {
        let mut i: usize = 0;
        while i < j
            invariant
                i <= j,
                j < entries@.len(),
                forall|a: int| 0 <= a < i ==> (#[trigger] entries@[a]).0 != entries@[j as int].0,
            decreases j - i,
        {
            if entries[i].0.same(&entries[j].0) {
                assert(entries@[i as int].0 == entries@[j as int].0);
                return false;
            }
            i += 1;
        }
        j += 1;
    }
    true
}

/// Enters `value` for `who`, in place of an earlier entry if there is one.
pub fn record_entry<V>(entries: &mut Vec<(AccountId, V)>, who: AccountId, value: V)
    ensures
        final(entries)@ == recorded(old(entries)@, who, value),
{
    match find_entry(entries, &who) {
        Some(i) => {
            entries.set(i, (who, value));
        },
        None => {
            entries.push((who, value));
        },
    }
}

} // verus!
