//! What the project engine offers to the engines that feed it.
use crate::ledger::{asked, Journal, Ledger};
use crate::proposals::engine::Pallet;
use crate::proposals::model::Error;
use crate::proposals::project::{Contribution, ProposedMilestone};
use crate::types::{AccountId, AgreementHash, CurrencyId, FundingType};
use vstd::prelude::*;

verus! {

/// Turns funded work into a project.
pub trait IntoProposal: Sized {
    /// What the engine needs to hold of itself before it is given work.
    spec fn proposals_wf(&self) -> bool;

    /// Creates a project for `benificiary` from the contributions and the
    /// milestones agreed under `brief_hash`. The contributions must have been
    /// reserved, or be on their way from a treasury.
    fn convert_to_proposal<L: Ledger>(
        &mut self,
        journal: &mut Journal<L>,
        currency_id: CurrencyId,
        current_contribution: Vec<(AccountId, Contribution)>,
        brief_hash: AgreementHash,
        benificiary: AccountId,
        milestones: Vec<ProposedMilestone>,
        funding_type: FundingType,
    ) -> (r: Result<(), Error>)
        requires
            old(self).proposals_wf(),
        ensures
            final(self).proposals_wf(),
    ;
}

impl IntoProposal for Pallet {
    open spec fn proposals_wf(&self) -> bool {
        self.wf()
    }

    fn convert_to_proposal<L: Ledger>(
        &mut self,
        journal: &mut Journal<L>,
        currency_id: CurrencyId,
        current_contribution: Vec<(AccountId, Contribution)>,
        brief_hash: AgreementHash,
        benificiary: AccountId,
        milestones: Vec<ProposedMilestone>,
        funding_type: FundingType,
    ) -> (r: Result<(), Error>)
        ensures
            final(self).cfg() == old(self).cfg(),
            match old(self)@.conversion_outcome(
                old(self).cfg(),
                current_contribution@,
                milestones@,
            ) {
                Err(e) => r == Err::<(), Error>(e) && *final(journal) == *old(journal),
                Ok(_) => (r.is_ok() || r is Err && r->Err_0 is Ledger) && asked(
                    old(journal).calls@,
                    final(journal).calls@,
                    old(self)@.conversion_calls(
                        old(self).cfg(),
                        currency_id,
                        current_contribution@,
                        benificiary,
                        funding_type,
                    ),
                    r.is_ok(),
                ),
            },
            r.is_ok() ==> final(self)@ == old(self)@.converted(
                old(self).cfg(),
                currency_id,
                current_contribution@,
                brief_hash,
                benificiary,
                milestones@,
                funding_type,
            ),
            r.is_err() ==> final(self)@ == old(self)@,
    {
        Pallet::convert_to_proposal(
            self,
            journal,
            currency_id,
            current_contribution,
            brief_hash,
            benificiary,
            milestones,
            funding_type,
        )
    }
}

} // verus!
