//! The currency ledger that the engines move funds on. It is kept elsewhere;
//! the engines see it through this interface and act on what it answers.
use crate::types::{AccountId, Balance, CurrencyId};
use vstd::prelude::*;

verus! {

/// Why the ledger refused to move or reserve funds.
#[derive(Clone, Copy, Debug, PartialEq, Eq, Structural)]
pub enum LedgerError {
    /// The account does not hold the amount.
    BalanceTooLow,
    /// The funds are locked or otherwise restricted.
    LiquidityRestrictions,
    /// The movement would leave an account below the least balance allowed.
    ExistentialDeposit,
    /// Any other refusal.
    Other,
}

/// A ledger of balances, by currency and account.
pub trait Ledger {
    /// Sets `amount` of the free balance of `who` aside.
    fn reserve(&mut self, currency: CurrencyId, who: AccountId, amount: Balance) -> Result<
        (),
        LedgerError,
    >;

    /// Frees up to `amount` of what was set aside for `who`, and returns what
    /// of `amount` could not be freed.
    fn unreserve(&mut self, currency: CurrencyId, who: AccountId, amount: Balance) -> Balance;

    /// Moves `amount` from the free balance of `from` to that of `to`.
    fn transfer(
        &mut self,
        currency: CurrencyId,
        from: AccountId,
        to: AccountId,
        amount: Balance,
    ) -> Result<(), LedgerError>;
}

/// One request to the ledger.
#[derive(Clone, Copy, Debug, PartialEq, Eq)]
pub enum LedgerCall {
    /// Set `amount` of the free balance of `who` aside.
    Reserve { currency: CurrencyId, who: AccountId, amount: Balance },
    /// Free up to `amount` of what was set aside for `who`.
    Unreserve { currency: CurrencyId, who: AccountId, amount: Balance },
    /// Move `amount` from the free balance of `from` to that of `to`.
    Transfer { currency: CurrencyId, from: AccountId, to: AccountId, amount: Balance },
}

/// A ledger together with the record of what has been asked of it.
pub struct Journal<L: Ledger> {
    /// The ledger.
    pub ledger: L,
    /// Every request made of the ledger so far, oldest first.
    pub calls: Vec<LedgerCall>,
}

/// Whether `after` records, beyond `before`, the requests `planned`: all of
/// them, in order, if they were `granted`, and otherwise those up to and
/// including the first that was refused.
pub open spec fn asked(
    before: Seq<LedgerCall>,
    after: Seq<LedgerCall>,
    planned: Seq<LedgerCall>,
    granted: bool,
) -> bool {
    if granted {
        after == before + planned
    } else {
        exists|n: int| 0 < n <= planned.len() && after == before + #[trigger] planned.take(n)
    }
}

/// What is asked in two steps, the second only if the first was granted, is
/// asked of the two plans in a row.
pub proof fn lemma_asked_in_a_row(
    before: Seq<LedgerCall>,
    between: Seq<LedgerCall>,
    after: Seq<LedgerCall>,
    first: Seq<LedgerCall>,
    second: Seq<LedgerCall>,
    granted: bool,
)
    requires
        asked(before, between, first, true),
        asked(between, after, second, granted),
    ensures
        asked(before, after, first + second, granted),
{
    let planned = first + second;
    if granted {
        assert(after =~= before + planned);
    } else {
        let n = choose|n: int|
            0 < n <= second.len() && after == between + #[trigger] second.take(n);
        assert(planned.take(first.len() + n) =~= first + second.take(n));
        assert(after =~= before + planned.take(first.len() + n));
    }
}

/// What was refused in the first of two steps was refused of the two plans in
/// a row.
pub proof fn lemma_asked_first(
    before: Seq<LedgerCall>,
    after: Seq<LedgerCall>,
    first: Seq<LedgerCall>,
    second: Seq<LedgerCall>,
)
    requires
        asked(before, after, first, false),
    ensures
        asked(before, after, first + second, false),
{
    let planned = first + second;
    let n = choose|n: int| 0 < n <= first.len() && after == before + #[trigger] first.take(n);
    assert(planned.take(n) =~= first.take(n));
}

impl<L: Ledger> Journal<L> {
    /// A journal of `ledger`, of which nothing has been asked yet.
    pub fn new(ledger: L) -> (journal: Journal<L>)
        ensures
            journal.ledger == ledger,
            journal.calls@ == Seq::<LedgerCall>::empty(),
    {
        Journal { ledger, calls: Vec::new() }
    }

    /// Makes the requests `calls` of the ledger, in order, up to the first
    /// that the ledger refuses, and hands that refusal on. Every request made
    /// is recorded. What the ledger makes of the requests is its own affair;
    /// without requests nothing is asked of it.
    pub fn perform(&mut self, calls: &Vec<LedgerCall>) -> (r: Result<(), LedgerError>)
        ensures
            asked(old(self).calls@, final(self).calls@, calls@, r.is_ok()),
            calls@.len() == 0 ==> r.is_ok() && final(self).ledger == old(self).ledger,
    {
        let mut i: usize = 0;
        assert(self.calls@ =~= old(self).calls@ + calls@.take(0));
        while i < calls.len()
            invariant
                i <= calls@.len(),
                self.calls@ == old(self).calls@ + calls@.take(i as int),
                calls@.len() == 0 ==> self.ledger == old(self).ledger,
            decreases calls@.len() - i,
        {
            let call = calls[i];
            self.calls.push(call);
            assert(self.calls@ =~= old(self).calls@ + calls@.take(i + 1));
            match call {
                LedgerCall::Reserve { currency, who, amount } => {
                    match self.ledger.reserve(currency, who, amount) {
                        Ok(()) => {},
                        Err(e) => {
                            return Err(e);
                        },
                    }
                },
                LedgerCall::Unreserve { currency, who, amount } => {
                    self.ledger.unreserve(currency, who, amount);
                },
                LedgerCall::Transfer { currency, from, to, amount } => {
                    match self.ledger.transfer(currency, from, to, amount) {
                        Ok(()) => {},
                        Err(e) => {
                            return Err(e);
                        },
                    }
                },
            }
            i += 1;
        }
        assert(calls@.take(i as int) == calls@);
        Ok(())
    }
}

} // verus!
