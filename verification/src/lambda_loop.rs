//! The durable call of a lambda: a lambda either finishes with a result or suspends
//! on an effect; the host runs the effect, records its result in the execution's
//! history under the step's id, and calls the lambda again with that history. This
//! module decides each step; running the lambda and the effect happens outside.

use crate::kv::{bytes_view, namespace, HistoryStore};
use crate::sdk::HttpEffect;
use crate::strmap::StrMap;
use crate::text::to_string;
use vstd::prelude::*;

verus! {

/// What one call of a lambda gave.
pub enum LambdaOutput {
    /// The lambda is done, with this result.
    Finished(Vec<u8>),
    /// The lambda waits for an effect; the steps it recorded so far come along.
    Suspended { effect: HttpEffect, step_id: String, new_history: StrMap<Vec<u8>> },
}

/// What the host does next.
pub enum LoopAction {
    /// Hand this result to the caller.
    Return(Vec<u8>),
    /// Run this effect, then record its result under the step's id.
    RunEffect(HttpEffect, String),
}

/// Handles what a call of the lambda gave: a finished execution forgets its history
/// and returns the result; a suspended one records the steps it brought and asks for
/// its effect to be run.
pub fn on_output(store: &mut HistoryStore, execution_id: &str, output: LambdaOutput) -> (r: LoopAction)
    requires
        old(store).wf(),
        output matches LambdaOutput::Suspended { new_history, .. } ==> new_history.wf(),
    ensures
        final(store).wf(),
        match output {
            LambdaOutput::Finished(result) => {
                &&& r matches LoopAction::Return(x) && x@ == result@
                &&& final(store).view() == old(store).view().remove(execution_id@)
            },
            LambdaOutput::Suspended { effect, step_id, new_history } => {
                &&& r matches LoopAction::RunEffect(e, s) && e == effect && s@ == step_id@
                &&& final(store).view() == old(store).view().insert(
                    execution_id@,
                    namespace(old(store).view(), execution_id@).union_prefer_right(bytes_view(new_history.view())),
                )
            },
        },
{
    match output {
        LambdaOutput::Finished(result) => {
            store.clear(execution_id);
            LoopAction::Return(result)
        },
        LambdaOutput::Suspended { effect, step_id, new_history } => {
            store.merge(execution_id, &new_history);
            LoopAction::RunEffect(effect, step_id)
        },
    }
}

/// Records the encoded result of an effect under the step that waited for it.
pub fn record_effect(store: &mut HistoryStore, execution_id: &str, step_id: &str, encoded_result: Vec<u8>)
    requires
        old(store).wf(),
    ensures
        final(store).wf(),
        final(store).view() == old(store).view().insert(
            execution_id@,
            namespace(old(store).view(), execution_id@).insert(step_id@, encoded_result@),
        ),
{
    let ghost v = encoded_result@;
    let mut step: StrMap<Vec<u8>> = StrMap::new();
    step.insert(to_string(step_id), encoded_result);
    proof {
        assert(bytes_view(step.view()) =~= map![step_id@ => v]);
        assert(namespace(old(store).view(), execution_id@).union_prefer_right(map![step_id@ => v])
            =~= namespace(old(store).view(), execution_id@).insert(step_id@, v));
    }
    store.merge(execution_id, &step);
}

/// The history a call of the lambda starts from: the recorded one, or none.
pub fn history_for(store: &HistoryStore, execution_id: &str) -> (r: StrMap<Vec<u8>>)
    requires
        store.wf(),
    ensures
        r.wf(),
        bytes_view(r.view()) == namespace(store.view(), execution_id@),
{
    match store.get(execution_id) {
        Some(h) => h,
        None => {
            let h: StrMap<Vec<u8>> = StrMap::new();
            assert(bytes_view(h.view()) =~= Map::<Seq<char>, Seq<u8>>::empty());
            h
        },
    }
}

} // verus!
