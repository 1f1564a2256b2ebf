//! Whole runs of an operation: the calls that it asks for, in order, as the
//! replies come in.

use vstd::prelude::*;
use crate::operation::{
    acquire, initial, step_model, Action, ActionView, Event, EventView, Operation, OperationView,
    OutcomeView, RequestView,
};
use crate::policy::PolicyCandidate;

verus! {

/// An operation together with every call that it has asked for so far.
pub struct Run {
    pub state: OperationView,
    pub trace: Seq<ActionView>,
}

/// The kinds of call, without what they carry.
pub enum ActionKind {
    AcquireSession,
    Enumerate,
    Instantiate,
    SetDefaultEndpoint,
    ReleaseInstance,
    ReleaseSession,
    Finish,
}

/// The kind of a call.
pub open spec fn kind_of(action: ActionView) -> ActionKind {
    match action {
        ActionView::AcquireSession { .. } => ActionKind::AcquireSession,
        ActionView::Enumerate { .. } => ActionKind::Enumerate,
        ActionView::Instantiate { .. } => ActionKind::Instantiate,
        ActionView::SetDefaultEndpoint { .. } => ActionKind::SetDefaultEndpoint,
        ActionView::ReleaseInstance { .. } => ActionKind::ReleaseInstance,
        ActionView::ReleaseSession => ActionKind::ReleaseSession,
        ActionView::Finish(_) => ActionKind::Finish,
    }
}

/// A run that has just begun: the acquisition has been asked for.
pub open spec fn started(request: RequestView, candidates: Seq<PolicyCandidate>) -> Run {
    Run { state: initial(request, candidates), trace: seq![acquire()] }
}

/// The run after one more reply.
pub open spec fn deliver(run: Run, event: EventView) -> Run {
    let (state, action) = step_model(run.state, event);
    Run {
        state,
        trace: match action {
            Some(action) => run.trace.push(action),
            None => run.trace,
        },
    }
}

/// The run after a sequence of replies, handed over in order.
pub open spec fn advance(run: Run, events: Seq<EventView>) -> Run
    decreases events.len(),
{
    if events.len() == 0 {
        run
    } else {
        deliver(advance(run, events.drop_last()), events.last())
    }
}

/// The run of a fresh operation over a sequence of replies.
pub open spec fn history(
    request: RequestView,
    candidates: Seq<PolicyCandidate>,
    events: Seq<EventView>,
) -> Run {
    advance(started(request, candidates), events)
}

/// How many calls of one kind a trace holds.
pub open spec fn count(trace: Seq<ActionView>, kind: ActionKind) -> nat
    decreases trace.len(),
{
    if trace.len() == 0 {
        0
    } else {
        count(trace.drop_last(), kind) + if kind_of(trace.last()) == kind {
            1nat
        } else {
            0nat
        }
    }
}

/// The candidates that a trace instantiates, in order.
pub open spec fn instantiated(trace: Seq<ActionView>) -> Seq<PolicyCandidate>
    decreases trace.len(),
{
    if trace.len() == 0 {
        Seq::empty()
    } else {
        let earlier = instantiated(trace.drop_last());
        match trace.last() {
            ActionView::Instantiate { candidate, .. } => earlier.push(candidate),
            _ => earlier,
        }
    }
}

/// The endpoints that a trace makes the default, in order.
pub open spec fn committed(trace: Seq<ActionView>) -> Seq<Seq<char>>
    decreases trace.len(),
{
    if trace.len() == 0 {
        Seq::empty()
    } else {
        let earlier = committed(trace.drop_last());
        match trace.last() {
            ActionView::SetDefaultEndpoint { id, .. } => earlier.push(id),
            _ => earlier,
        }
    }
}

/// The outcome that a trace ends with, if it has ended.
pub open spec fn reported(trace: Seq<ActionView>) -> Option<OutcomeView> {
    if trace.len() == 0 {
        None
    } else {
        match trace.last() {
            ActionView::Finish(outcome) => Some(outcome),
            _ => None,
        }
    }
}

/// What one more call adds to each reading of a trace.
pub proof fn lemma_trace_push(trace: Seq<ActionView>, action: ActionView)
    ensures
        forall|kind: ActionKind| #[trigger]
            count(trace.push(action), kind) == count(trace, kind) + if kind_of(action) == kind {
                1nat
            } else {
                0nat
            },
        instantiated(trace.push(action)) == match action {
            ActionView::Instantiate { candidate, .. } => instantiated(trace).push(candidate),
            _ => instantiated(trace),
        },
        committed(trace.push(action)) == match action {
            ActionView::SetDefaultEndpoint { id, .. } => committed(trace).push(id),
            _ => committed(trace),
        },
        reported(trace.push(action)) == match action {
            ActionView::Finish(outcome) => Some(outcome),
            _ => None,
        },
{
    assert(trace.push(action).drop_last() == trace);
}

/// One more reply at the end is one more delivery.
pub proof fn lemma_advance_push(run: Run, events: Seq<EventView>, event: EventView)
    ensures
        advance(run, events.push(event)) == deliver(advance(run, events), event),
{
    assert(events.push(event).drop_last() == events);
}

/// Replies handed over in two parts give the run that they give in one.
pub proof fn lemma_advance_concat(run: Run, first: Seq<EventView>, second: Seq<EventView>)
    ensures
        advance(run, first + second) == advance(advance(run, first), second),
    decreases second.len(),
{
    if second.len() == 0 {
        assert(first + second == first);
    } else {
        assert((first + second).drop_last() == first + second.drop_last());
        lemma_advance_concat(run, first, second.drop_last());
    }
}

/// Runs an operation over replies that are known beforehand, such as those
/// of a recorded session or of a platform that is only pretended: hands them
/// over in order and gathers every call that is asked for, the first one
/// included.
pub fn replay(start: (Operation, Action), events: Vec<Event>) -> (end: (Operation, Vec<Action>))
    ensures
        (Run { state: end.0@, trace: end.1.deep_view() }) == advance(
            Run { state: start.0@, trace: seq![start.1@] },
            events.deep_view(),
        ),
{
    let (operation, first) = start;
    let ghost begun = Run { state: operation@, trace: seq![first@] };
    let ghost script = events.deep_view();
    let mut operation = operation;
    let mut trace: Vec<Action> = Vec::new();
    trace.push(first);
    assert(trace.deep_view() == begun.trace);
    for event in iter: events.into_iter()
        invariant
            iter.seq().len() == script.len(),
            forall|k: int| 0 <= k < script.len() ==> (#[trigger] iter.seq()[k])@ == script[k],
            (Run { state: operation@, trace: trace.deep_view() }) == advance(
                begun,
                script.take(iter.index() as int),
            ),
    {
        let ghost done = script.take(iter.index() as int);
        let ghost before = trace.deep_view();
        proof {
            lemma_advance_push(begun, done, event@);
            assert(done.push(event@) == script.take(iter.index() + 1));
        }
        let (next, asked) = operation.step(event);
        operation = next;
        match asked {
            Some(action) => {
                trace.push(action);
                assert(trace.deep_view() == before.push(action@));
            },
            None => {},
        }
    }
    proof {
        assert(script.take(script.len() as int) == script);
    }
    (operation, trace)
}

} // verus!
