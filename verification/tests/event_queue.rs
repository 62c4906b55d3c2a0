use wayland_protocol::event_queue::{blocking_step, dispatch_step, BlockingStep, DispatchStep, QueueOutcome};

fn run(outcomes: Vec<QueueOutcome<&'static str>>) -> Result<usize, &'static str> {
    let mut dispatched = 0usize;
    let mut it = outcomes.into_iter();
    loop {
        match dispatch_step(dispatched, it.next()) {
            DispatchStep::Continue(n) => dispatched = n,
            DispatchStep::Done(r) => return r,
        }
    }
}

#[test]
fn empty_queue_dispatches_nothing() {
    assert_eq!(run(vec![]), Ok(0));
}

#[test]
fn messages_are_counted_destructors_are_not() {
    let outcomes = vec![
        QueueOutcome::Msg(Ok(())),
        QueueOutcome::Destructor,
        QueueOutcome::Msg(Ok(())),
        QueueOutcome::Destructor,
    ];
    assert_eq!(run(outcomes), Ok(2));
}

#[test]
fn first_failure_stops_dispatching() {
    let outcomes = vec![
        QueueOutcome::Msg(Ok(())),
        QueueOutcome::Msg(Err("bad message")),
        QueueOutcome::Msg(Err("never seen")),
    ];
    assert_eq!(run(outcomes), Err("bad message"));
}

#[test]
fn blocking_dispatch_waits_only_when_nothing_was_pending() {
    assert_eq!(blocking_step(3), BlockingStep::Return(3));
    assert_eq!(blocking_step(0), BlockingStep::ReadThenDispatch);
}
