//! The engine: pull, filter, push, confirm, and again.
//!
//! The engine does not wait on the queue or the store itself. It is told what
//! the last operation yielded, and answers with the operation to perform
//! next; whoever drives it performs that operation and reports back.

use crate::error::{Fault, SyncError};
use crate::filter::{accords, outcome_of, Filter};
use crate::record::{records, LogMessage, Record};
use std::sync::Arc;
use vstd::prelude::*;

verus! {

/// What the engine is waiting for.
#[derive(Debug, Clone, Copy, PartialEq, Eq, Structural)]
pub enum Stage {
    /// A batch from the source.
    Pulling,
    /// The sink's word on the batch handed to it.
    Pushing,
    /// The source's word on the confirmation.
    Confirming,
    /// Nothing any more: a step failed.
    Halted,
}

/// What the operation that the engine asked for has yielded.
#[derive(Debug)]
pub enum Event {
    /// The source delivered a batch.
    Pulled(Vec<LogMessage>),
    /// The sink has written the batch.
    Pushed,
    /// The source has confirmed what was read.
    Confirmed,
    /// The operation failed.
    Failed,
}

/// What the engine asks for next.
#[derive(Debug)]
pub enum Action {
    /// Pull a batch from the source.
    Pull,
    /// Push this batch to the sink.
    Push(Vec<LogMessage>),
    /// Confirm to the source what was read.
    Confirm,
    /// Stop. The failure is that of a filter; there is none where the
    /// operation itself had failed or was not the one asked for.
    Halt(Option<SyncError>),
}

/// An [`Event`] as contracts see it.
pub enum EventView {
    Pulled(Seq<Record>),
    Pushed,
    Confirmed,
    Failed,
}

/// An [`Action`] as contracts see it.
pub enum ActionView {
    Pull,
    Push(Seq<Record>),
    Confirm,
    Halt(Option<Fault>),
}

impl View for Event {
    type V = EventView;

    open spec fn view(&self) -> EventView {
        match self {
            Event::Pulled(batch) => EventView::Pulled(records(batch@)),
            Event::Pushed => EventView::Pushed,
            Event::Confirmed => EventView::Confirmed,
            Event::Failed => EventView::Failed,
        }
    }
}

impl View for Action {
    type V = ActionView;

    open spec fn view(&self) -> ActionView {
        match self {
            Action::Pull => ActionView::Pull,
            Action::Push(batch) => ActionView::Push(records(batch@)),
            Action::Confirm => ActionView::Confirm,
            Action::Halt(Some(error)) => ActionView::Halt(Some(error@)),
            Action::Halt(None) => ActionView::Halt(None),
        }
    }
}

/// The pipeline: an ordered chain of filters between a source and a sink.
pub struct Pip {
    filters: Vec<Arc<dyn Filter>>,
    stage: Stage,
}

/// A [`Pip`] as contracts see it.
pub struct Engine {
    pub filters: Seq<Arc<dyn Filter>>,
    pub stage: Stage,
}

/// A batch folded through `filters` in order: what the last filter makes of
/// what the filters before it made of the batch, or the failure of the first
/// filter that fails. `None` where a filter that the batch reaches does not
/// say what it does.
pub open spec fn chained(filters: Seq<Arc<dyn Filter>>, batch: Seq<Record>) -> Option<
    Result<Seq<Record>, Fault>,
>
    decreases filters.len(),
{
    if filters.len() == 0 {
        Some(Ok(batch))
    } else {
        match chained(filters.drop_last(), batch) {
            Some(Ok(passed)) => filters.last().outcome(passed),
            other => other,
        }
    }
}

/// The stage in which the engine awaits the outcome of `action`.
pub open spec fn stage_for(action: ActionView) -> Stage {
    match action {
        ActionView::Pull => Stage::Pulling,
        ActionView::Push(_) => Stage::Pushing,
        ActionView::Confirm => Stage::Confirming,
        ActionView::Halt(_) => Stage::Halted,
    }
}

/// Whether `action` is the engine's answer to `event` in `stage`. A batch
/// that was pulled goes through the filters and on to the sink, or halts the
/// engine with the failure of a filter; a push that succeeded is confirmed;
/// after the confirmation the next batch is pulled. A failure halts the
/// engine, and so does an event that does not answer what the engine asked
/// for.
pub open spec fn answers(
    filters: Seq<Arc<dyn Filter>>,
    stage: Stage,
    event: EventView,
    action: ActionView,
) -> bool {
    match (stage, event) {
        (Stage::Pulling, EventView::Pulled(batch)) => match action {
            ActionView::Push(passed) => accords(
                chained(filters, batch),
                Ok::<Seq<Record>, Fault>(passed),
            ),
            ActionView::Halt(Some(fault)) => accords(
                chained(filters, batch),
                Err::<Seq<Record>, Fault>(fault),
            ),
            _ => false,
        },
        (Stage::Pushing, EventView::Pushed) => action == ActionView::Confirm,
        (Stage::Confirming, EventView::Confirmed) => action == ActionView::Pull,
        _ => action == ActionView::Halt(None),
    }
}

impl View for Pip {
    type V = Engine;

    closed spec fn view(&self) -> Engine {
        Engine { filters: self.filters@, stage: self.stage }
    }
}

impl Pip {
    /// A pipeline with these filters, about to pull its first batch.
    pub fn new(filters: Vec<Arc<dyn Filter>>) -> (r: Pip)
        ensures
            r@ == (Engine { filters: filters@, stage: Stage::Pulling }),
    {
        Pip { filters, stage: Stage::Pulling }
    }

    /// What the engine is waiting for.
    pub fn stage(&self) -> (r: Stage)
        ensures
            r == self@.stage,
    {
        self.stage
    }

    /// Folds `batch` through the filters in order. The first filter that
    /// fails fails the whole batch.
    pub fn apply(&self, batch: Vec<LogMessage>) -> (r: Result<Vec<LogMessage>, SyncError>)
        ensures
            accords(chained(self@.filters, records(batch@)), outcome_of(r)),
    {
        let ghost filters = self.filters@;
        let ghost given = records(batch@);
        let mut passed = batch;
        let mut i: usize = 0;
        assert(filters.take(0) =~= Seq::<Arc<dyn Filter>>::empty());
        while i < self.filters.len()
            invariant
                i <= self.filters.len(),
                filters == self.filters@,
                given == records(batch@),
                chained(filters.take(i as int), given) is None || chained(
                    filters.take(i as int),
                    given,
                ) == Some(Ok::<Seq<Record>, Fault>(records(passed@))),
            decreases self.filters.len() - i,
        {
            assert(filters.take(i + 1).drop_last() =~= filters.take(i as int));
            passed = match self.filters[i].process(passed) {
                Ok(out) => out,
                Err(error) => {
                    proof {
                        lemma_chained_ends(filters, given, i + 1);
                    }
                    return Err(error);
                },
            };
            i = i + 1;
        }
        assert(filters.take(self.filters.len() as int) =~= filters);
        Ok(passed)
    }

    /// Takes what the last operation yielded and answers with the next one.
    pub fn step(&mut self, event: Event) -> (r: Action)
        ensures
            answers(old(self)@.filters, old(self)@.stage, event@, r@),
            final(self)@.stage == stage_for(r@),
            final(self)@.filters == old(self)@.filters,
    {
        match (self.stage, event) {
            (Stage::Pulling, Event::Pulled(batch)) => match self.apply(batch) {
                Ok(passed) => {
                    self.stage = Stage::Pushing;
                    Action::Push(passed)
                },
                Err(error) => {
                    self.stage = Stage::Halted;
                    Action::Halt(Some(error))
                },
            },
            (Stage::Pushing, Event::Pushed) => {
                self.stage = Stage::Confirming;
                Action::Confirm
            },
            (Stage::Confirming, Event::Confirmed) => {
                self.stage = Stage::Pulling;
                Action::Pull
            },
            _ => {
                self.stage = Stage::Halted;
                Action::Halt(None)
            },
        }
    }
}

/// Where the first `n` filters fail the batch, or one of them does not say
/// what it does, the whole chain does as they do.
pub proof fn lemma_chained_ends(filters: Seq<Arc<dyn Filter>>, batch: Seq<Record>, n: int)
    requires
        0 <= n <= filters.len(),
        !(chained(filters.take(n), batch) matches Some(Ok(_))),
    ensures
        chained(filters, batch) == chained(filters.take(n), batch),
    decreases filters.len() - n,
{
    if n == filters.len() {
        assert(filters.take(n) =~= filters);
    } else {
        assert(filters.take(n + 1).drop_last() =~= filters.take(n));
        lemma_chained_ends(filters, batch, n + 1);
    }
}

/// The stage of an engine that started out pulling, before it takes the
/// event at `at`, given its answers so far.
pub open spec fn stage_before(actions: Seq<ActionView>, at: int) -> Stage {
    if at <= 0 {
        Stage::Pulling
    } else {
        stage_for(actions[at - 1])
    }
}

/// Whether `actions` are the answers of an engine that started out pulling
/// to `events`, one for each event in turn.
pub open spec fn run(
    filters: Seq<Arc<dyn Filter>>,
    events: Seq<EventView>,
    actions: Seq<ActionView>,
) -> bool {
    &&& actions.len() == events.len()
    &&& forall|at: int|
        0 <= at < events.len() ==> answers(
            filters,
            stage_before(actions, at),
            #[trigger] events[at],
            actions[at],
        )
}

/// In every run of the engine, a confirmation is asked for if and only if
/// the push that the engine had asked for just before has succeeded.
pub proof fn law_confirm_iff_pushed(
    filters: Seq<Arc<dyn Filter>>,
    events: Seq<EventView>,
    actions: Seq<ActionView>,
    at: int,
)
    requires
        run(filters, events, actions),
        0 <= at < events.len(),
    ensures
        actions[at] is Confirm <==> at > 0 && actions[at - 1] is Push && events[at] is Pushed,
{
    assert(answers(filters, stage_before(actions, at), events[at], actions[at]));
}

/// In every run of the engine, a batch is pushed only when it was just
/// pulled, as the first operation or after a confirmation that succeeded,
/// and passed every filter; what is pushed is what the filters made of it.
pub proof fn law_push_only_filtered(
    filters: Seq<Arc<dyn Filter>>,
    events: Seq<EventView>,
    actions: Seq<ActionView>,
    at: int,
)
    requires
        run(filters, events, actions),
        0 <= at < events.len(),
    ensures
        actions[at] matches ActionView::Push(passed) ==> {
            &&& at == 0 || actions[at - 1] is Pull
            &&& events[at] matches EventView::Pulled(batch)
            &&& accords(chained(filters, batch), Ok::<Seq<Record>, Fault>(passed))
        },
{
    assert(answers(filters, stage_before(actions, at), events[at], actions[at]));
}

/// Once the engine has halted, it stays halted: it answers every later event
/// by halting.
pub proof fn law_halted_for_good(
    filters: Seq<Arc<dyn Filter>>,
    events: Seq<EventView>,
    actions: Seq<ActionView>,
    at: int,
    later: int,
)
    requires
        run(filters, events, actions),
        0 <= at < later < events.len(),
        actions[at] is Halt,
    ensures
        actions[later] is Halt,
    decreases later - at,
{
    assert(answers(filters, stage_before(actions, at + 1), events[at + 1], actions[at + 1]));
    if at + 1 < later {
        law_halted_for_good(filters, events, actions, at + 1, later);
    }
}

/// Where every filter that a batch reaches says what it does, the engine's
/// answer to an event is the only one there is.
pub proof fn law_one_answer(
    filters: Seq<Arc<dyn Filter>>,
    stage: Stage,
    event: EventView,
    one: ActionView,
    other: ActionView,
)
    requires
        answers(filters, stage, event, one),
        answers(filters, stage, event, other),
        event matches EventView::Pulled(batch) ==> chained(filters, batch) is Some,
    ensures
        one == other,
{
}

} // verus!
