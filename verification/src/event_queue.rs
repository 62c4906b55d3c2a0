//! The rules by which a client's event queue dispatches the events it holds.
//!
//! A queue holds two kinds of events: messages, each handed to the callback of
//! its object, and destructor notices. Dispatching takes the events in order
//! until none is left; it counts the messages handled, and stops at the first
//! callback that fails, with that failure.
use vstd::prelude::*;

verus! {

/// What happened to one event taken from the queue.
#[derive(Debug)]
pub enum QueueOutcome<E> {
    /// A message, and what its callback returned.
    Msg(Result<(), E>),
    /// A destructor notice, whose callback cannot fail.
    Destructor,
}

/// What dispatching does after an event, or after finding the queue empty.
#[derive(Debug)]
pub enum DispatchStep<E> {
    /// Take the next event, with this many messages dispatched so far.
    Continue(usize),
    /// Stop, with this result.
    Done(Result<usize, E>),
}

/// One step of dispatching, from the count so far and the outcome of the next
/// event (`None` when the queue is empty).
pub open spec fn step_spec<E>(dispatched: usize, next: Option<QueueOutcome<E>>) -> DispatchStep<E> {
    match next {
        None => DispatchStep::Done(Ok(dispatched)),
        Some(QueueOutcome::Destructor) => DispatchStep::Continue(dispatched),
        Some(QueueOutcome::Msg(Ok(()))) => DispatchStep::Continue((dispatched + 1) as usize),
        Some(QueueOutcome::Msg(Err(e))) => DispatchStep::Done(Err(e)),
    }
}

/// One step of dispatching (see [`step_spec`]).
pub fn dispatch_step<E>(dispatched: usize, next: Option<QueueOutcome<E>>) -> (r: DispatchStep<E>)
    requires
        dispatched < usize::MAX,
    ensures
        r == step_spec(dispatched, next),
{
    match next {
        None => DispatchStep::Done(Ok(dispatched)),
        Some(QueueOutcome::Destructor) => DispatchStep::Continue(dispatched),
        Some(QueueOutcome::Msg(Ok(()))) => DispatchStep::Continue(dispatched + 1),
        Some(QueueOutcome::Msg(Err(e))) => DispatchStep::Done(Err(e)),
    }
}

/// The result of dispatching a queue whose events have these outcomes, from a
/// count of `dispatched`: the steps taken one after the other, the last one on
/// the empty queue. `None` when dispatching would not stop there.
pub open spec fn run_steps<E>(dispatched: usize, outcomes: Seq<QueueOutcome<E>>) -> Option<Result<usize, E>>
    decreases outcomes.len(),
{
    if outcomes.len() == 0 {
        match step_spec(dispatched, None) {
            DispatchStep::Continue(_) => None,
            DispatchStep::Done(r) => Some(r),
        }
    } else {
        match step_spec(dispatched, Some(outcomes[0])) {
            DispatchStep::Continue(n) => run_steps(n, outcomes.drop_first()),
            DispatchStep::Done(r) => Some(r),
        }
    }
}

/// The number of messages among some outcomes.
pub open spec fn count_messages<E>(outcomes: Seq<QueueOutcome<E>>) -> nat
    decreases outcomes.len(),
{
    if outcomes.len() == 0 {
        0
    } else {
        (if outcomes[0] is Msg { 1nat } else { 0nat }) + count_messages(outcomes.drop_first())
    }
}

/// The position of the first failed message among some outcomes, if any.
pub open spec fn first_failure<E>(outcomes: Seq<QueueOutcome<E>>) -> Option<int>
    decreases outcomes.len(),
{
    if outcomes.len() == 0 {
        None
    } else if outcomes[0] matches QueueOutcome::Msg(Err(_)) {
        Some(0)
    } else {
        match first_failure(outcomes.drop_first()) {
            Some(k) => Some(k + 1),
            None => None,
        }
    }
}

/// Dispatching a queue where no callback fails handles every event, stops on
/// the empty queue, and returns the count it started from plus the number of
/// messages among the events (destructor notices are not counted); when a
/// callback fails, dispatching returns the first failure.
pub proof fn lemma_dispatch_counts_messages<E>(dispatched: usize, outcomes: Seq<QueueOutcome<E>>)
    requires
        dispatched + outcomes.len() <= usize::MAX,
    ensures
        first_failure(outcomes) is None ==> run_steps(dispatched, outcomes)
            == Some(Ok::<usize, E>((dispatched + count_messages(outcomes)) as usize)),
        first_failure(outcomes) matches Some(k) ==> (0 <= k < outcomes.len()
            && (outcomes[k] matches QueueOutcome::Msg(Err(e)) && run_steps(dispatched, outcomes) == Some(Err::<usize, E>(e)))),
    decreases outcomes.len(),
{
    if outcomes.len() > 0 {
        lemma_count_bound(outcomes.drop_first());
        match outcomes[0] {
            QueueOutcome::Destructor => {
                lemma_dispatch_counts_messages(dispatched, outcomes.drop_first());
            },
            QueueOutcome::Msg(Ok(())) => {
                lemma_dispatch_counts_messages((dispatched + 1) as usize, outcomes.drop_first());
            },
            QueueOutcome::Msg(Err(_)) => {},
        }
    }
}

/// Dispatching from an empty queue stops at once with the count so far; a
/// successful message adds exactly one to the count and a destructor notice
/// none, and a failed callback stops dispatching with its failure.
pub proof fn lemma_step_counts<E>(dispatched: usize, next: Option<QueueOutcome<E>>)
    requires
        dispatched < usize::MAX,
    ensures
        next is None ==> run_steps(dispatched, Seq::<QueueOutcome<E>>::empty()) == Some(Ok::<usize, E>(dispatched)),
        next matches Some(o) ==> match o {
            QueueOutcome::Msg(Ok(())) => step_spec(dispatched, next) == DispatchStep::<E>::Continue((dispatched + 1) as usize),
            QueueOutcome::Msg(Err(e)) => step_spec(dispatched, next) == DispatchStep::<E>::Done(Err(e)),
            QueueOutcome::Destructor => step_spec(dispatched, next) == DispatchStep::<E>::Continue(dispatched),
        },
{
    lemma_dispatch_counts_messages(dispatched, Seq::<QueueOutcome<E>>::empty());
}

proof fn lemma_count_bound<E>(outcomes: Seq<QueueOutcome<E>>)
    ensures
        count_messages(outcomes) <= outcomes.len(),
    decreases outcomes.len(),
{
    if outcomes.len() > 0 {
        lemma_count_bound(outcomes.drop_first());
    }
}

/// What a blocking dispatch does after dispatching what was pending.
#[derive(Clone, Copy, PartialEq, Eq, Structural, Debug)]
pub enum BlockingStep {
    /// Return this count: some events were dispatched.
    Return(usize),
    /// Nothing was pending: wait for events from the server, then dispatch again.
    ReadThenDispatch,
}

/// A blocking dispatch returns at once when events were pending, and otherwise
/// waits for new ones before it dispatches again.
pub fn blocking_step(dispatched: usize) -> (r: BlockingStep)
    ensures
        dispatched > 0 ==> r == BlockingStep::Return(dispatched),
        dispatched == 0 ==> r == BlockingStep::ReadThenDispatch,
{
    if dispatched > 0 {
        BlockingStep::Return(dispatched)
    } else {
        BlockingStep::ReadThenDispatch
    }
}

} // verus!
