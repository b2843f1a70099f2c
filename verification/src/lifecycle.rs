//! The order lifecycle: submit, confirm, track, cancel.
//!
//! The manager never talks to the broker. It is told what came back from a
//! call and answers with the next call to make; whoever drives it makes the
//! calls.

use vstd::prelude::*;

verus! {

/// One field of a response entry.
#[derive(Debug, PartialEq, Eq)]
pub enum Field {
    /// The entry has no such field.
    Absent,
    /// The field holds a text.
    Text(String),
    /// The field holds something that is no text.
    Other,
}

/// One entry of the list that the broker answers a submission or a
/// confirmation with.
#[derive(Debug, PartialEq, Eq)]
pub struct ResponseEntry {
    /// The reply id of a confirmation prompt.
    pub id: Field,
    /// The id of an accepted order.
    pub order_id: Field,
}

/// What a response means.
#[derive(Debug, PartialEq, Eq)]
pub enum BrokerReply {
    /// The broker asks for a confirmation under this reply id.
    PendingConfirmation(String),
    /// The broker accepted the orders with these ids.
    Accepted(Vec<String>),
    /// The response holds neither a prompt nor an order.
    Terminal,
}

/// The content of a `BrokerReply`.
pub enum Reply {
    PendingConfirmation(String),
    Accepted(Seq<String>),
    Terminal,
}

impl View for BrokerReply {
    type V = Reply;

    open spec fn view(&self) -> Reply {
        match self {
            BrokerReply::PendingConfirmation(id) => Reply::PendingConfirmation(*id),
            BrokerReply::Accepted(ids) => Reply::Accepted(ids@),
            BrokerReply::Terminal => Reply::Terminal,
        }
    }
}

/// The order ids among the first `n` entries: the `order_id` fields that
/// hold a text, in order.
pub open spec fn order_ids(entries: Seq<ResponseEntry>, n: int) -> Seq<String>
    decreases n,
{
    if n <= 0 {
        Seq::empty()
    } else {
        let before = order_ids(entries, n - 1);
        match entries[n - 1].order_id {
            Field::Text(id) => before.push(id),
            _ => before,
        }
    }
}

/// What a response means. The first entry decides: a text under `id` is a
/// confirmation prompt; failing that, an `order_id` field of any sort makes
/// the response an acceptance of the orders named in it; anything else, and
/// the empty response, is terminal.
pub open spec fn classified(entries: Seq<ResponseEntry>) -> Reply {
    if entries.len() == 0 {
        Reply::Terminal
    } else {
        match entries[0].id {
            Field::Text(id) => Reply::PendingConfirmation(id),
            _ => match entries[0].order_id {
                Field::Absent => Reply::Terminal,
                _ => Reply::Accepted(order_ids(entries, entries.len() as int)),
            },
        }
    }
}

/// Reads a response.
pub fn classify_response(entries: &Vec<ResponseEntry>) -> (reply: BrokerReply)
    ensures
        reply@ == classified(entries@),
{
    if entries.len() == 0 {
        return BrokerReply::Terminal;
    }
    match &entries[0].id {
        Field::Text(id) => {
            return BrokerReply::PendingConfirmation(id.clone());
        },
        _ => {},
    }
    match &entries[0].order_id {
        Field::Absent => {
            return BrokerReply::Terminal;
        },
        _ => {},
    }
    let mut ids: Vec<String> = Vec::new();
    let mut n: usize = 0;
    while n < entries.len()
        invariant
            0 <= n <= entries@.len(),
            ids@ == order_ids(entries@, n as int),
        decreases entries@.len() - n,
    {
        match &entries[n].order_id {
            Field::Text(id) => {
                ids.push(id.clone());
            },
            _ => {},
        }
        n = n + 1;
    }
    BrokerReply::Accepted(ids)
}

/// Where a submission stands.
#[derive(Clone, Copy, Debug, PartialEq, Eq, Structural)]
pub enum OrderState {
    /// Nothing has been sent.
    Built,
    /// The orders, or a confirmation, went out and the answer is examined.
    Submitted,
    /// A confirmation prompt is being answered.
    Confirming,
    /// The broker accepted the orders; their ids are live.
    Accepted,
    /// The submission ended without a live order.
    Rejected,
}

/// What came back from the call that the manager asked for.
#[derive(Debug, PartialEq, Eq)]
pub enum BrokerEvent {
    /// The call succeeded with this response.
    Replied(BrokerReply),
    /// The call failed.
    Failed,
}

/// The content of a `BrokerEvent`.
pub enum Event {
    Replied(Reply),
    Failed,
}

impl View for BrokerEvent {
    type V = Event;

    open spec fn view(&self) -> Event {
        match self {
            BrokerEvent::Replied(reply) => Event::Replied(reply@),
            BrokerEvent::Failed => Event::Failed,
        }
    }
}

/// The call to make next.
#[derive(Debug, PartialEq, Eq)]
pub enum LifecycleAction {
    /// Send the orders.
    Submit,
    /// Answer the prompt with this reply id with "confirmed".
    Confirm(String),
    /// Nothing: the submission is over.
    Finish,
}

/// The outcome of one cancellation call.
#[derive(Clone, Copy, Debug, PartialEq, Eq, Structural)]
pub enum CancelOutcome {
    Cancelled,
    /// The call failed, with this HTTP status if there was one.
    Failed(u16),
}

/// The next step of a cancellation run.
#[derive(Debug, PartialEq, Eq)]
pub enum CancelAction {
    /// Cancel the order with this id.
    Delete(String),
    /// Every live order has been tried; the live set is empty.
    Done,
}

/// The state of the manager.
pub struct Lifecycle {
    pub state: OrderState,
    /// The ids of the orders that were accepted and not cancelled since.
    pub live_orders: Seq<String>,
    /// How many of the live orders the running cancellation has tried.
    pub cancelled: int,
    /// How many cancellation calls have failed since the run began.
    pub failures: int,
}

/// The manager of the order lifecycle.
pub struct OrderManager {
    state: OrderState,
    live_orders: Vec<String>,
    cancelled: usize,
    failures: usize,
}

impl View for OrderManager {
    type V = Lifecycle;

    closed spec fn view(&self) -> Lifecycle {
        Lifecycle {
            state: self.state,
            live_orders: self.live_orders@,
            cancelled: self.cancelled as int,
            failures: self.failures as int,
        }
    }
}

/// The manager waits for an answer of the broker.
pub open spec fn awaits_answer(state: OrderState) -> bool {
    state == OrderState::Submitted || state == OrderState::Confirming
}

/// The state after an event, and the call to make next. An event that
/// arrives while no answer is awaited changes nothing. A prompt is answered;
/// an acceptance makes its order ids live; a failure and a terminal response
/// end the submission and leave the live orders as they were.
pub open spec fn after_event(l: Lifecycle, e: Event) -> (Lifecycle, LifecycleAction) {
    if !awaits_answer(l.state) {
        (l, LifecycleAction::Finish)
    } else {
        match e {
            Event::Failed => (Lifecycle { state: OrderState::Rejected, ..l }, LifecycleAction::Finish),
            Event::Replied(Reply::Terminal) => (
                Lifecycle { state: OrderState::Rejected, ..l },
                LifecycleAction::Finish,
            ),
            Event::Replied(Reply::PendingConfirmation(id)) => (
                Lifecycle { state: OrderState::Confirming, ..l },
                LifecycleAction::Confirm(id),
            ),
            Event::Replied(Reply::Accepted(ids)) => (
                Lifecycle { state: OrderState::Accepted, live_orders: l.live_orders + ids, ..l },
                LifecycleAction::Finish,
            ),
        }
    }
}

/// The state after an outcome of a cancellation call, and the next step. The
/// outcome is counted and otherwise ignored: the run goes on to the next live
/// order whatever happened to the last, and when none is left the live set is
/// emptied.
pub open spec fn after_cancel(l: Lifecycle, previous: Option<CancelOutcome>) -> (
    Lifecycle,
    CancelAction,
) {
    let failures = if previous matches Some(CancelOutcome::Failed(_)) {
        if l.failures < usize::MAX {
            l.failures + 1
        } else {
            l.failures
        }
    } else {
        l.failures
    };
    if 0 <= l.cancelled < l.live_orders.len() {
        (
            Lifecycle { cancelled: l.cancelled + 1, failures, ..l },
            CancelAction::Delete(l.live_orders[l.cancelled]),
        )
    } else {
        (Lifecycle { live_orders: Seq::empty(), cancelled: 0, failures, ..l }, CancelAction::Done)
    }
}

impl OrderManager {
    /// A manager with nothing sent and no live order.
    pub fn new() -> (m: OrderManager)
        ensures
            m@ == (Lifecycle {
                state: OrderState::Built,
                live_orders: Seq::empty(),
                cancelled: 0,
                failures: 0,
            }),
    {
        OrderManager { state: OrderState::Built, live_orders: Vec::new(), cancelled: 0, failures: 0 }
    }

    /// Where the current submission stands.
    pub fn state(&self) -> (s: OrderState)
        ensures
            s == self@.state,
    {
        self.state
    }

    /// The ids of the live orders, oldest first.
    pub fn live_orders(&self) -> (ids: &Vec<String>)
        ensures
            ids@ == self@.live_orders,
    {
        &self.live_orders
    }

    /// How many cancellation calls have failed since the run began.
    pub fn failed_cancellations(&self) -> (n: usize)
        ensures
            n == self@.failures,
    {
        self.failures
    }

    /// Begins a submission: the orders are to be sent, and the answer is
    /// awaited. The live orders stay as they are.
    pub fn submit(&mut self) -> (action: LifecycleAction)
        ensures
            action is Submit,
            final(self)@ == (Lifecycle { state: OrderState::Submitted, ..old(self)@ }),
    {
        self.state = OrderState::Submitted;
        LifecycleAction::Submit
    }

    /// Takes what came back from the last call and says which call to make
    /// next.
    pub fn handle(&mut self, event: BrokerEvent) -> (action: LifecycleAction)
        ensures
            (final(self)@, action) == after_event(old(self)@, event@),
    {
        match self.state {
            OrderState::Submitted => {},
            OrderState::Confirming => {},
            _ => {
                return LifecycleAction::Finish;
            },
        }
        match event {
            BrokerEvent::Failed => {
                self.state = OrderState::Rejected;
                LifecycleAction::Finish
            },
            BrokerEvent::Replied(reply) => match reply {
                BrokerReply::Terminal => {
                    self.state = OrderState::Rejected;
                    LifecycleAction::Finish
                },
                BrokerReply::PendingConfirmation(id) => {
                    self.state = OrderState::Confirming;
                    LifecycleAction::Confirm(id)
                },
                BrokerReply::Accepted(ids) => {
                    let mut ids = ids;
                    self.live_orders.append(&mut ids);
                    self.state = OrderState::Accepted;
                    LifecycleAction::Finish
                },
            },
        }
    }

    /// Begins a cancellation run over the live orders.
    pub fn begin_cancellation(&mut self)
        ensures
            final(self)@ == (Lifecycle { cancelled: 0, failures: 0, ..old(self)@ }),
    {
        self.cancelled = 0;
        self.failures = 0;
    }

    /// Takes the outcome of the last cancellation call, if there was one, and
    /// gives the next step of the run.
    pub fn cancel_next(&mut self, previous: Option<CancelOutcome>) -> (action: CancelAction)
        ensures
            (final(self)@, action) == after_cancel(old(self)@, previous),
    {
        match previous {
            Some(CancelOutcome::Failed(_)) => {
                if self.failures < usize::MAX {
                    self.failures = self.failures + 1;
                }
            },
            _ => {},
        }
        if self.cancelled < self.live_orders.len() {
            let id: String = self.live_orders[self.cancelled].clone();
            self.cancelled = self.cancelled + 1;
            CancelAction::Delete(id)
        } else {
            self.live_orders.clear();
            self.cancelled = 0;
            CancelAction::Done
        }
    }
}

} // verus!
