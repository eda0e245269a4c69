//! What the dispute engine offers to, and asks of, the engines around it.
use crate::disputes::dispute::{DisputeKey, DisputeResult};
use crate::disputes::model::{Completion, Error};
use crate::types::{AccountId, Weight};
use vstd::prelude::*;

verus! {

/// Told of every dispute that completes.
pub trait DisputeHooks: Sized {
    /// What the handler needs to hold of itself before it is told anything.
    spec fn hooks_wf(&self) -> bool;

    /// Whether `post` is what `pre` becomes on being told that the dispute
    /// `key` about `specifiers` has ended in `result`.
    spec fn completed(
        pre: &Self,
        post: &Self,
        key: DisputeKey,
        specifiers: Seq<u32>,
        result: DisputeResult,
    ) -> bool;

    /// Tells the handler that the dispute `dispute_key` about `specifiers` has
    /// ended in `result`. Returns the cost of handling it.
    fn on_dispute_complete(
        &mut self,
        dispute_key: DisputeKey,
        specifiers: Vec<u32>,
        result: DisputeResult,
    ) -> (weight: Weight)
        requires
            old(self).hooks_wf(),
        ensures
            final(self).hooks_wf(),
            Self::completed(old(self), final(self), dispute_key, specifiers@, result),
    ;
}

/// Whether `post` is what `pre` becomes on being told of `calls`, one after
/// the other.
pub open spec fn told<H: DisputeHooks>(pre: H, post: H, calls: Seq<Completion>) -> bool
    decreases calls.len(),
{
    if calls.len() == 0 {
        post == pre
    } else {
        exists|mid: H|
            {
                &&& told(pre, mid, calls.drop_last())
                &&& #[trigger] mid.hooks_wf()
                &&& H::completed(
                    &mid,
                    &post,
                    calls.last().key,
                    calls.last().specifiers,
                    calls.last().result,
                )
            }
    }
}

/// Telling one more completion extends what has been told.
pub proof fn lemma_told_push<H: DisputeHooks>(
    pre: H,
    mid: H,
    post: H,
    calls: Seq<Completion>,
    call: Completion,
)
    requires
        told(pre, mid, calls),
        mid.hooks_wf(),
        H::completed(&mid, &post, call.key, call.specifiers, call.result),
    ensures
        told(pre, post, calls.push(call)),
{
    let all = calls.push(call);
    assert(all.drop_last() == calls);
    assert(all.last() == call);
    assert(told(pre, mid, all.drop_last()));
}

/// Opens disputes on behalf of another engine.
pub trait DisputeRaiser: Sized {
    /// What the raiser needs to hold of itself before a dispute is raised.
    spec fn raiser_wf(&self) -> bool;

    /// Whether `post` is what `pre` becomes on being asked to open a dispute
    /// under `key`, and `refusal` why it refuses, if it does.
    spec fn raised(
        pre: &Self,
        post: &Self,
        key: DisputeKey,
        raised_by: AccountId,
        jury: Seq<AccountId>,
        specifiers: Seq<u32>,
        refusal: Option<Error>,
    ) -> bool;

    /// Opens a dispute under `dispute_key`, to be decided by `jury`.
    fn raise_dispute(
        &mut self,
        dispute_key: DisputeKey,
        raised_by: AccountId,
        jury: Vec<AccountId>,
        specifiers: Vec<u32>,
    ) -> (r: Result<(), Error>)
        requires
            old(self).raiser_wf(),
        ensures
            final(self).raiser_wf(),
            Self::raised(
                old(self),
                final(self),
                dispute_key,
                raised_by,
                jury@,
                specifiers@,
                r.err(),
            ),
    ;
}

/// A handler that keeps a list of what it was told.
pub struct CompletionLog {
    /// The completions told so far, oldest first.
    pub calls: Vec<(DisputeKey, Vec<u32>, DisputeResult)>,
}

impl CompletionLog {
    /// A handler that has been told nothing.
    pub fn new() -> (log: CompletionLog)
        ensures
            log.calls@.len() == 0,
    {
        CompletionLog { calls: Vec::new() }
    }
}

impl DisputeHooks for CompletionLog {
    open spec fn hooks_wf(&self) -> bool {
        true
    }

    open spec fn completed(
        pre: &Self,
        post: &Self,
        key: DisputeKey,
        specifiers: Seq<u32>,
        result: DisputeResult,
    ) -> bool {
        &&& post.calls@.len() == pre.calls@.len() + 1
        &&& post.calls@.drop_last() == pre.calls@
        &&& post.calls@.last().0 == key
        &&& post.calls@.last().1@ == specifiers
        &&& post.calls@.last().2 == result
    }

    fn on_dispute_complete(
        &mut self,
        dispute_key: DisputeKey,
        specifiers: Vec<u32>,
        result: DisputeResult,
    ) -> (weight: Weight)
        ensures
            weight == (Weight { reads: 0, writes: 1 }),
    {
        self.calls.push((dispute_key, specifiers, result));
        assert(self.calls@.drop_last() == old(self).calls@);
        Weight::reads_writes(0, 1)
    }
}

} // verus!
