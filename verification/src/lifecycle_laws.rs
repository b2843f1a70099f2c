//! What holds of every run of the order lifecycle.

use crate::lifecycle::{
    after_cancel, after_event, awaits_answer, CancelAction, CancelOutcome, Event, Lifecycle,
    LifecycleAction, OrderState, Reply,
};
use vstd::prelude::*;

verus! {

/// The state after a sequence of events.
pub open spec fn run(l: Lifecycle, events: Seq<Event>) -> Lifecycle
    decreases events.len(),
{
    if events.len() == 0 {
        l
    } else {
        after_event(run(l, events.drop_last()), events.last()).0
    }
}

/// The calls that the manager asks for in answer to a sequence of events.
pub open spec fn run_actions(l: Lifecycle, events: Seq<Event>) -> Seq<LifecycleAction>
    decreases events.len(),
{
    if events.len() == 0 {
        Seq::empty()
    } else {
        run_actions(l, events.drop_last()).push(
            after_event(run(l, events.drop_last()), events.last()).1,
        )
    }
}

/// One confirmation prompt for each reply id.
pub open spec fn prompts(ids: Seq<String>) -> Seq<Event> {
    ids.map_values(|id: String| Event::Replied(Reply::PendingConfirmation(id)))
}

/// One confirmation for each reply id.
pub open spec fn confirmations(ids: Seq<String>) -> Seq<LifecycleAction> {
    ids.map_values(|id: String| LifecycleAction::Confirm(id))
}

/// A run of prompts, however long, is answered with one confirmation for each
/// prompt, in order, and records no live order.
pub proof fn lemma_prompts_are_confirmed(l: Lifecycle, ids: Seq<String>)
    requires
        awaits_answer(l.state),
    ensures
        run_actions(l, prompts(ids)) == confirmations(ids),
        run(l, prompts(ids)).live_orders == l.live_orders,
        awaits_answer(run(l, prompts(ids)).state),
        run(l, prompts(ids)) == (Lifecycle {
            state: if ids.len() == 0 {
                l.state
            } else {
                OrderState::Confirming
            },
            ..l
        }),
    decreases ids.len(),
{
    if ids.len() > 0 {
        lemma_prompts_are_confirmed(l, ids.drop_last());
        assert(prompts(ids).drop_last() =~= prompts(ids.drop_last()));
        assert(confirmations(ids) =~= confirmations(ids.drop_last()).push(
            LifecycleAction::Confirm(ids.last()),
        ));
    } else {
        assert(confirmations(ids) =~= Seq::<LifecycleAction>::empty());
    }
}

/// Orders that are accepted after any number of prompts become live only with
/// the acceptance, after exactly one confirmation for each prompt.
pub proof fn lemma_accepted_after_confirmations(
    l: Lifecycle,
    ids: Seq<String>,
    accepted: Seq<String>,
)
    requires
        awaits_answer(l.state),
    ensures
        ({
            let events = prompts(ids).push(Event::Replied(Reply::Accepted(accepted)));
            &&& run_actions(l, events) == confirmations(ids).push(LifecycleAction::Finish)
            &&& run(l, events).live_orders == l.live_orders + accepted
            &&& run(l, events).state == OrderState::Accepted
            &&& forall|k: int|
                0 <= k <= ids.len() ==> run(l, #[trigger] events.take(k)).live_orders
                    == l.live_orders
        }),
{
    let events = prompts(ids).push(Event::Replied(Reply::Accepted(accepted)));
    lemma_prompts_are_confirmed(l, ids);
    assert(events.drop_last() =~= prompts(ids));
    assert forall|k: int| 0 <= k <= ids.len() implies run(
        l,
        #[trigger] events.take(k),
    ).live_orders == l.live_orders by {
        assert(events.take(k) =~= prompts(ids.take(k)));
        lemma_prompts_are_confirmed(l, ids.take(k));
    }
}

/// A call that fails after any number of prompts ends the submission: no
/// further call is asked for and no live order is recorded.
pub proof fn lemma_failure_records_nothing(l: Lifecycle, ids: Seq<String>)
    requires
        awaits_answer(l.state),
    ensures
        ({
            let events = prompts(ids).push(Event::Failed);
            &&& run_actions(l, events) == confirmations(ids).push(LifecycleAction::Finish)
            &&& run(l, events).live_orders == l.live_orders
            &&& run(l, events).state == OrderState::Rejected
        }),
{
    let events = prompts(ids).push(Event::Failed);
    lemma_prompts_are_confirmed(l, ids);
    assert(events.drop_last() =~= prompts(ids));
}

/// Once a submission is over, whatever arrives changes nothing.
pub proof fn lemma_nothing_after_the_end(l: Lifecycle, e: Event)
    requires
        !awaits_answer(l.state),
    ensures
        after_event(l, e) == (l, LifecycleAction::Finish),
{
}

/// The state after a sequence of cancellation outcomes.
pub open spec fn cancel_run(l: Lifecycle, outcomes: Seq<Option<CancelOutcome>>) -> Lifecycle
    decreases outcomes.len(),
{
    if outcomes.len() == 0 {
        l
    } else {
        after_cancel(cancel_run(l, outcomes.drop_last()), outcomes.last()).0
    }
}

/// The steps of a cancellation run.
pub open spec fn cancel_actions(l: Lifecycle, outcomes: Seq<Option<CancelOutcome>>) -> Seq<
    CancelAction,
>
    decreases outcomes.len(),
{
    if outcomes.len() == 0 {
        Seq::empty()
    } else {
        cancel_actions(l, outcomes.drop_last()).push(
            after_cancel(cancel_run(l, outcomes.drop_last()), outcomes.last()).1,
        )
    }
}

/// While live orders are left, every step of the run cancels the next one,
/// whatever the outcomes of the steps before.
pub proof fn lemma_cancel_goes_on(l: Lifecycle, outcomes: Seq<Option<CancelOutcome>>)
    requires
        l.cancelled == 0,
        outcomes.len() <= l.live_orders.len(),
    ensures
        cancel_run(l, outcomes).live_orders == l.live_orders,
        cancel_run(l, outcomes).cancelled == outcomes.len(),
        cancel_run(l, outcomes).state == l.state,
        cancel_actions(l, outcomes).len() == outcomes.len(),
        forall|k: int|
            0 <= k < outcomes.len() ==> #[trigger] cancel_actions(l, outcomes)[k]
                == CancelAction::Delete(l.live_orders[k]),
    decreases outcomes.len(),
{
    if outcomes.len() > 0 {
        lemma_cancel_goes_on(l, outcomes.drop_last());
    }
}

/// A cancellation run asks for one call for each live order, in order,
/// whether the calls succeed or fail, and ends with the live set empty.
pub proof fn lemma_cancel_tries_all(l: Lifecycle, outcomes: Seq<Option<CancelOutcome>>)
    requires
        l.cancelled == 0,
        outcomes.len() == l.live_orders.len() + 1,
    ensures
        cancel_actions(l, outcomes).len() == l.live_orders.len() + 1,
        forall|k: int|
            0 <= k < l.live_orders.len() ==> #[trigger] cancel_actions(l, outcomes)[k]
                == CancelAction::Delete(l.live_orders[k]),
        cancel_actions(l, outcomes).last() == CancelAction::Done,
        cancel_run(l, outcomes).live_orders.len() == 0,
        cancel_run(l, outcomes).cancelled == 0,
        cancel_run(l, outcomes).state == l.state,
{
    lemma_cancel_goes_on(l, outcomes.drop_last());
}

} // verus!
