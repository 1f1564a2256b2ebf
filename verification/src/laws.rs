//! What holds of every run of an operation, whatever the platform answers.

use vstd::prelude::*;
use crate::device::{collect, identified, lemma_collected_are_identified, ProbeView};
use crate::error::OperationError;
use crate::operation::{
    acquire, enumerate, failure, instantiate, release_instance, set_default, step_model,
    ActionView, EventView, OperationView, OutcomeView, PhaseView, RequestView,
};
use crate::policy::{is_live, known_candidates, PolicyCandidate};
use crate::selector::{first_match, lemma_listed_id_is_found, CriterionView};
use crate::session::{owns, usable};
use crate::trace::{
    advance, committed, count, deliver, history, instantiated, kind_of, lemma_advance_concat,
    lemma_advance_push, lemma_trace_push, reported, started, ActionKind, Run,
};

verus! {

/// The run has ended.
pub open spec fn finished(run: Run) -> bool {
    run.state.phase is Finished
}

/// Neither the session was released nor the end reported.
spec fn open_ended(trace: Seq<ActionView>) -> bool {
    &&& count(trace, ActionKind::ReleaseSession) == 0
    &&& count(trace, ActionKind::Finish) == 0
}

/// No policy call was made.
spec fn untouched(trace: Seq<ActionView>) -> bool {
    &&& instantiated(trace).len() == 0
    &&& committed(trace).len() == 0
    &&& count(trace, ActionKind::ReleaseInstance) == 0
}

/// The result agrees with the calls that were made for it.
spec fn settled(op: OperationView, trace: Seq<ActionView>, result: OutcomeView) -> bool {
    &&& count(trace, ActionKind::ReleaseInstance) == committed(trace).len()
    &&& match result {
        OutcomeView::DefaultChanged { id } => {
            &&& committed(trace) == seq![id]
            &&& !(op.request is List)
        },
        OutcomeView::Failed(OperationError::PolicyCommit { .. }) => {
            &&& committed(trace).len() == 1
            &&& !(op.request is List)
        },
        OutcomeView::Failed(OperationError::PolicyResolution { .. }) => {
            &&& committed(trace).len() == 0
            &&& instantiated(trace) == op.candidates
            &&& !(op.request is List)
        },
        OutcomeView::Failed(_) => {
            &&& untouched(trace)
            &&& !(op.request is List)
        },
        OutcomeView::Devices { devices, .. } => {
            &&& untouched(trace)
            &&& identified(devices)
            &&& op.request is List
        },
    }
}

/// The state of a run agrees with its trace.
spec fn coherent(run: Run) -> bool {
    let op = run.state;
    let trace = run.trace;
    &&& count(trace, ActionKind::AcquireSession) == 1
    &&& count(trace, ActionKind::Enumerate) <= 1
    &&& (op.request is Commit ==> count(trace, ActionKind::Enumerate) == 0)
    &&& instantiated(trace).len() <= op.candidates.len()
    &&& instantiated(trace) == op.candidates.take(instantiated(trace).len() as int)
    &&& committed(trace).len() <= 1
    &&& committed(trace).len() <= instantiated(trace).len()
    &&& count(trace, ActionKind::ReleaseInstance) <= committed(trace).len()
    &&& match op.phase {
        PhaseView::Acquiring => {
            &&& !op.owned
            &&& count(trace, ActionKind::Enumerate) == 0
            &&& untouched(trace)
            &&& open_ended(trace)
        },
        PhaseView::Enumerating => {
            &&& !(op.request is Commit)
            &&& count(trace, ActionKind::Enumerate) == 1
            &&& untouched(trace)
            &&& open_ended(trace)
        },
        PhaseView::Resolving { target, attempt } => {
            &&& !(op.request is List)
            &&& 0 <= attempt < op.candidates.len()
            &&& instantiated(trace).len() == attempt + 1
            &&& committed(trace).len() == 0
            &&& count(trace, ActionKind::ReleaseInstance) == 0
            &&& open_ended(trace)
        },
        PhaseView::Committing { target } => {
            &&& !(op.request is List)
            &&& committed(trace) == seq![target]
            &&& count(trace, ActionKind::ReleaseInstance) == 0
            &&& open_ended(trace)
        },
        PhaseView::ReleasingInstance { result } => {
            &&& !(op.request is List)
            &&& committed(trace).len() == 1
            &&& count(trace, ActionKind::ReleaseInstance) == 1
            &&& open_ended(trace)
            &&& (result == OutcomeView::DefaultChanged { id: committed(trace)[0] }
                || result matches OutcomeView::Failed(OperationError::PolicyCommit { .. }))
        },
        PhaseView::ReleasingSession { result } => {
            &&& op.owned
            &&& count(trace, ActionKind::ReleaseSession) == 1
            &&& count(trace, ActionKind::Finish) == 0
            &&& settled(op, trace, result)
        },
        PhaseView::Finished => {
            &&& count(trace, ActionKind::ReleaseSession) == if op.owned {
                1nat
            } else {
                0nat
            }
            &&& count(trace, ActionKind::Finish) == 1
            &&& reported(trace) matches Some(result) && settled(op, trace, result)
        },
    }
}

proof fn lemma_started_coherent(request: RequestView, candidates: Seq<PolicyCandidate>)
    ensures
        coherent(started(request, candidates)),
{
    let nothing = Seq::<ActionView>::empty();
    lemma_trace_push(nothing, acquire());
    assert(started(request, candidates).trace == nothing.push(acquire()));
    assert(instantiated(nothing).len() == 0);
    assert(candidates.take(0) == Seq::<PolicyCandidate>::empty());
}

proof fn lemma_deliver_coherent(run: Run, event: EventView)
    requires
        coherent(run),
    ensures
        coherent(deliver(run, event)),
{
    let op = run.state;
    let trace = run.trace;
    let (next, action) = step_model(op, event);
    let tried = instantiated(trace);
    assert(op.candidates.take(op.candidates.len() as int) == op.candidates);
    match action {
        None => {},
        Some(action) => {
            lemma_trace_push(trace, action);
            match event {
                EventView::Endpoints { probes } => {
                    lemma_collected_are_identified(probes);
                },
                _ => {},
            }
            match action {
                ActionView::Instantiate { candidate, .. } => {
                    assert(tried.push(candidate) == op.candidates.take((tried.len() + 1) as int));
                },
                ActionView::SetDefaultEndpoint { id, .. } => {
                    assert(committed(trace).push(id) == seq![id]);
                },
                _ => {},
            }
            match op.phase {
                PhaseView::ReleasingInstance { result } => {
                    assert(committed(trace) == seq![committed(trace)[0]]);
                },
                _ => {},
            }
        },
    }
}

proof fn lemma_advance_coherent(run: Run, events: Seq<EventView>)
    requires
        coherent(run),
    ensures
        coherent(advance(run, events)),
    decreases events.len(),
{
    if events.len() > 0 {
        lemma_advance_coherent(run, events.drop_last());
        lemma_deliver_coherent(advance(run, events.drop_last()), events.last());
    }
}

proof fn lemma_history_coherent(
    request: RequestView,
    candidates: Seq<PolicyCandidate>,
    events: Seq<EventView>,
)
    ensures
        coherent(history(request, candidates, events)),
{
    lemma_started_coherent(request, candidates);
    lemma_advance_coherent(started(request, candidates), events);
}

/// The session is asked for exactly once in every run, at its start, and
/// released at most once. A run that has ended has released the session
/// exactly once if it established it, and not at all if it did not; it has
/// reported its end exactly once, as its last call.
pub proof fn lemma_session_bracket(
    request: RequestView,
    candidates: Seq<PolicyCandidate>,
    events: Seq<EventView>,
)
    ensures
        ({
            let run = history(request, candidates, events);
            &&& count(run.trace, ActionKind::AcquireSession) == 1
            &&& run.trace[0] == acquire()
            &&& count(run.trace, ActionKind::ReleaseSession) <= 1
            &&& count(run.trace, ActionKind::ReleaseSession) == 1 ==> run.state.owned
            &&& finished(run) ==> count(run.trace, ActionKind::ReleaseSession) == if run.state.owned {
                1nat
            } else {
                0nat
            }
            &&& finished(run) <==> count(run.trace, ActionKind::Finish) == 1
            &&& finished(run) <==> reported(run.trace) is Some
            &&& count(run.trace, ActionKind::Finish) <= 1
        }),
{
    lemma_history_coherent(request, candidates, events);
    lemma_history_begins(request, candidates, events);
    lemma_history_reports_at_end(request, candidates, events);
}

proof fn lemma_history_begins(
    request: RequestView,
    candidates: Seq<PolicyCandidate>,
    events: Seq<EventView>,
)
    ensures
        history(request, candidates, events).trace.len() > 0,
        history(request, candidates, events).trace[0] == acquire(),
    decreases events.len(),
{
    if events.len() > 0 {
        lemma_history_begins(request, candidates, events.drop_last());
    }
}

proof fn lemma_history_reports_at_end(
    request: RequestView,
    candidates: Seq<PolicyCandidate>,
    events: Seq<EventView>,
)
    ensures
        reported(history(request, candidates, events).trace) is Some ==> finished(
            history(request, candidates, events),
        ),
    decreases events.len(),
{
    if events.len() > 0 {
        lemma_history_reports_at_end(request, candidates, events.drop_last());
        let before = history(request, candidates, events.drop_last());
        let (next, action) = step_model(before.state, events.last());
        match action {
            Some(action) => {
                lemma_trace_push(before.trace, action);
            },
            None => {},
        }
    }
}

proof fn lemma_history_frame(
    request: RequestView,
    candidates: Seq<PolicyCandidate>,
    events: Seq<EventView>,
)
    ensures
        history(request, candidates, events).state.request == request,
        history(request, candidates, events).state.candidates == candidates,
    decreases events.len(),
{
    if events.len() > 0 {
        lemma_history_frame(request, candidates, events.drop_last());
    }
}

proof fn lemma_counts_agree(trace: Seq<ActionView>)
    ensures
        count(trace, ActionKind::Instantiate) == instantiated(trace).len(),
        count(trace, ActionKind::SetDefaultEndpoint) == committed(trace).len(),
    decreases trace.len(),
{
    if trace.len() > 0 {
        lemma_counts_agree(trace.drop_last());
    }
}

/// The policy service is reached for in the fixed order of the candidates,
/// each candidate at most once. "Set default endpoint" is called at most
/// once in a run, and only on an instance that an instantiation gave. The
/// instance is released at most once, never before that call, and exactly
/// once by the time the run has ended. What the run reports agrees with the
/// calls: success only after the call for that endpoint, a failure to reach
/// the service only after every candidate was tried and no call was made,
/// and any other end without a single policy call.
pub proof fn lemma_policy_bridge(
    request: RequestView,
    candidates: Seq<PolicyCandidate>,
    events: Seq<EventView>,
)
    ensures
        ({
            let run = history(request, candidates, events);
            let tried = instantiated(run.trace);
            let made = committed(run.trace);
            let released = count(run.trace, ActionKind::ReleaseInstance);
            &&& count(run.trace, ActionKind::Instantiate) == tried.len()
            &&& tried.len() <= candidates.len()
            &&& forall|k: int| 0 <= k < tried.len() ==> tried[k] == candidates[k]
            &&& count(run.trace, ActionKind::SetDefaultEndpoint) == made.len()
            &&& made.len() <= 1
            &&& made.len() <= tried.len()
            &&& released <= made.len()
            &&& finished(run) ==> released == made.len()
            &&& finished(run) ==> match reported(run.trace) {
                Some(OutcomeView::DefaultChanged { id }) => made == seq![id],
                Some(OutcomeView::Failed(OperationError::PolicyCommit { .. })) => made.len() == 1,
                Some(OutcomeView::Failed(OperationError::PolicyResolution { .. })) => {
                    &&& made.len() == 0
                    &&& tried == candidates
                },
                _ => tried.len() == 0 && made.len() == 0,
            }
        }),
{
    lemma_history_coherent(request, candidates, events);
    lemma_history_frame(request, candidates, events);
    lemma_counts_agree(history(request, candidates, events).trace);
}

/// A listing is never refused: a run that was asked to list ends with a
/// listing, in which every device has an identifier, and without a single
/// policy call. A run that was asked for anything else never ends with a
/// listing.
pub proof fn lemma_listing_never_fails(
    request: RequestView,
    candidates: Seq<PolicyCandidate>,
    events: Seq<EventView>,
)
    ensures
        ({
            let run = history(request, candidates, events);
            finished(run) ==> match reported(run.trace) {
                Some(OutcomeView::Devices { devices, .. }) => {
                    &&& request is List
                    &&& identified(devices)
                    &&& instantiated(run.trace).len() == 0
                    &&& committed(run.trace).len() == 0
                },
                _ => !(request is List),
            }
        }),
{
    lemma_history_coherent(request, candidates, events);
    lemma_history_frame(request, candidates, events);
}

/// The run after its first reply.
proof fn lemma_history_after_one(
    request: RequestView,
    candidates: Seq<PolicyCandidate>,
    first: EventView,
    rest: Seq<EventView>,
)
    ensures
        history(request, candidates, seq![first] + rest) == advance(
            deliver(started(request, candidates), first),
            rest,
        ),
{
    let begun = started(request, candidates);
    let nothing = Seq::<EventView>::empty();
    lemma_advance_concat(begun, seq![first], rest);
    lemma_advance_push(begun, nothing, first);
    assert(nothing.push(first) == seq![first]);
}

/// The run after its first two replies.
proof fn lemma_history_after_two(
    request: RequestView,
    candidates: Seq<PolicyCandidate>,
    first: EventView,
    second: EventView,
    rest: Seq<EventView>,
)
    ensures
        history(request, candidates, seq![first, second] + rest) == advance(
            deliver(deliver(started(request, candidates), first), second),
            rest,
        ),
{
    let begun = started(request, candidates);
    let nothing = Seq::<EventView>::empty();
    lemma_advance_concat(begun, seq![first, second], rest);
    lemma_advance_push(begun, nothing, first);
    lemma_advance_push(begun, nothing.push(first), second);
    assert(nothing.push(first).push(second) == seq![first, second]);
}

/// The acquisition has been answered with `code`.
spec fn answered(run: Run, code: i32) -> bool {
    &&& !(run.state.phase is Acquiring)
    &&& run.state.owned == owns(code as int)
}

proof fn lemma_advance_answered(run: Run, code: i32, events: Seq<EventView>)
    requires
        answered(run, code),
    ensures
        answered(advance(run, events), code),
    decreases events.len(),
{
    if events.len() > 0 {
        lemma_advance_answered(run, code, events.drop_last());
    }
}

/// One acquisition, one release: in a run whose acquisition was answered
/// with `code`, the session is released exactly once by the time the run
/// has ended if that answer says that this call established it, and never
/// if it says that somebody else holds the thread or that the platform
/// refused. It is acquired exactly once either way.
pub proof fn lemma_session_released_iff_acquired(
    request: RequestView,
    candidates: Seq<PolicyCandidate>,
    code: i32,
    rest: Seq<EventView>,
)
    ensures
        ({
            let run = history(request, candidates, seq![EventView::Status { code }] + rest);
            &&& run.state.owned == owns(code as int)
            &&& count(run.trace, ActionKind::AcquireSession) == 1
            &&& count(run.trace, ActionKind::ReleaseSession) <= 1
            &&& !owns(code as int) ==> count(run.trace, ActionKind::ReleaseSession) == 0
            &&& finished(run) && owns(code as int) ==> count(run.trace, ActionKind::ReleaseSession)
                == 1
        }),
{
    let events = seq![EventView::Status { code }] + rest;
    lemma_session_bracket(request, candidates, events);
    lemma_history_after_one(request, candidates, EventView::Status { code }, rest);
    let first = deliver(started(request, candidates), EventView::Status { code });
    assert(answered(first, code));
    lemma_advance_answered(first, code, rest);
}

/// The run is over in all but the release of the session, with `result` to
/// report and no policy call made.
spec fn concluded(run: Run, result: OutcomeView) -> bool {
    &&& untouched(run.trace)
    &&& count(run.trace, ActionKind::Enumerate) <= 1
    &&& (run.state.phase == PhaseView::ReleasingSession { result } || (run.state.phase is Finished
        && reported(run.trace) == Some(result)))
}

proof fn lemma_deliver_concluded(run: Run, result: OutcomeView, event: EventView)
    requires
        concluded(run, result),
    ensures
        concluded(deliver(run, event), result),
{
    let (next, action) = step_model(run.state, event);
    match action {
        Some(action) => {
            lemma_trace_push(run.trace, action);
        },
        None => {},
    }
}

proof fn lemma_advance_concluded(run: Run, result: OutcomeView, events: Seq<EventView>)
    requires
        concluded(run, result),
    ensures
        concluded(advance(run, events), result),
    decreases events.len(),
{
    if events.len() > 0 {
        lemma_advance_concluded(run, result, events.drop_last());
        lemma_deliver_concluded(advance(run, events.drop_last()), result, events.last());
    }
}

/// What the run may report once it works on making `id` the default.
pub open spec fn aims_at(result: OutcomeView, id: Seq<char>) -> bool {
    ||| result == OutcomeView::DefaultChanged { id }
    ||| result matches OutcomeView::Failed(OperationError::PolicyCommit { .. })
    ||| result matches OutcomeView::Failed(OperationError::PolicyResolution { .. })
}

/// The run works on making `id` the default, and on nothing else.
spec fn aimed(run: Run, id: Seq<char>) -> bool {
    let made = committed(run.trace);
    &&& made.len() == 0 || made == seq![id]
    &&& match run.state.phase {
        PhaseView::Resolving { target, .. } => target == id && made.len() == 0,
        PhaseView::Committing { target } => target == id,
        PhaseView::ReleasingInstance { result } => aims_at(result, id),
        PhaseView::ReleasingSession { result } => aims_at(result, id),
        PhaseView::Finished => reported(run.trace) matches Some(result) && aims_at(result, id),
        _ => false,
    }
}

proof fn lemma_deliver_aimed(run: Run, id: Seq<char>, event: EventView)
    requires
        aimed(run, id),
    ensures
        aimed(deliver(run, event), id),
{
    let (next, action) = step_model(run.state, event);
    match action {
        Some(action) => {
            lemma_trace_push(run.trace, action);
            match action {
                ActionView::SetDefaultEndpoint { id: made, .. } => {
                    assert(committed(run.trace).push(made) == seq![made]);
                },
                _ => {},
            }
        },
        None => {},
    }
}

proof fn lemma_advance_aimed(run: Run, id: Seq<char>, events: Seq<EventView>)
    requires
        aimed(run, id),
    ensures
        aimed(advance(run, events), id),
    decreases events.len(),
{
    if events.len() > 0 {
        lemma_advance_aimed(run, id, events.drop_last());
        lemma_deliver_aimed(advance(run, events.drop_last()), id, events.last());
    }
}

/// A run that has just begun has made no call but the acquisition.
proof fn lemma_started_untouched(request: RequestView, candidates: Seq<PolicyCandidate>)
    ensures
        untouched(started(request, candidates).trace),
        open_ended(started(request, candidates).trace),
        count(started(request, candidates).trace, ActionKind::Enumerate) == 0,
{
    let nothing = Seq::<ActionView>::empty();
    assert(started(request, candidates).trace == nothing.push(acquire()));
    lemma_trace_push(nothing, acquire());
}

/// The endpoints have been read, once, and will not be read again.
spec fn read_once(run: Run) -> bool {
    &&& count(run.trace, ActionKind::Enumerate) == 1
    &&& !(run.state.phase is Acquiring)
    &&& !(run.state.phase is Enumerating)
}

proof fn lemma_advance_read_once(run: Run, events: Seq<EventView>)
    requires
        read_once(run),
    ensures
        read_once(advance(run, events)),
    decreases events.len(),
{
    if events.len() > 0 {
        lemma_advance_read_once(run, events.drop_last());
        let before = advance(run, events.drop_last());
        let (next, action) = step_model(before.state, events.last());
        match action {
            Some(action) => {
                lemma_trace_push(before.trace, action);
            },
            None => {},
        }
    }
}

/// The run after the acquisition was answered with a usable status and the
/// endpoints were asked for and answered by `second`.
proof fn lemma_after_enumeration(
    request: RequestView,
    candidates: Seq<PolicyCandidate>,
    code: i32,
    second: EventView,
    rest: Seq<EventView>,
) -> (two: Run)
    requires
        usable(code as int),
        !(request is Commit),
        second is Endpoints || second is EnumerationFailed,
    ensures
        two == deliver(deliver(started(request, candidates), EventView::Status { code }), second),
        history(request, candidates, seq![EventView::Status { code }, second] + rest) == advance(
            two,
            rest,
        ),
        step_model(
            deliver(started(request, candidates), EventView::Status { code }).state,
            second,
        ).1 matches Some(asked) && two.trace == seq![acquire(), enumerate(), asked],
        read_once(two),
        count(advance(two, rest).trace, ActionKind::Enumerate) == 1,
        committed(two.trace) == Seq::<Seq<char>>::empty(),
        count(two.trace, ActionKind::ReleaseInstance) == 0,
        !(two.trace[2] is Instantiate) ==> untouched(two.trace),
{
    let first = EventView::Status { code };
    let begun = started(request, candidates);
    let one = deliver(begun, first);
    let two = deliver(one, second);
    lemma_history_after_two(request, candidates, first, second, rest);
    lemma_started_untouched(request, candidates);
    lemma_trace_push(begun.trace, enumerate());
    let asked = step_model(one.state, second).1.unwrap();
    lemma_trace_push(one.trace, asked);
    assert(two.trace == seq![acquire(), enumerate(), asked]);
    lemma_advance_read_once(two, rest);
    two
}

/// A session that the platform refuses ends the run at once: nothing is
/// enumerated, no policy call is made, nothing is released, and the refusal
/// is what the run reports, whatever is handed over afterwards.
pub proof fn lemma_refused_session(
    request: RequestView,
    candidates: Seq<PolicyCandidate>,
    code: i32,
    rest: Seq<EventView>,
)
    requires
        !usable(code as int),
    ensures
        history(request, candidates, seq![EventView::Status { code }] + rest).trace == seq![
            acquire(),
            ActionView::Finish(failure(request, OperationError::ResourceInit { code })),
        ],
        finished(history(request, candidates, seq![EventView::Status { code }] + rest)),
{
    lemma_history_after_one(request, candidates, EventView::Status { code }, rest);
    let first = deliver(started(request, candidates), EventView::Status { code });
    lemma_advance_finished(first, rest);
    assert(first.trace == seq![
        acquire(),
        ActionView::Finish(failure(request, OperationError::ResourceInit { code })),
    ]);
}

/// A run that has ended takes no more replies.
proof fn lemma_advance_finished(run: Run, events: Seq<EventView>)
    requires
        finished(run),
    ensures
        advance(run, events) == run,
    decreases events.len(),
{
    if events.len() > 0 {
        lemma_advance_finished(run, events.drop_last());
    }
}

/// Where the collection of endpoints cannot be had, no policy call is made,
/// and the run reports that failure: as an empty listing with the failure
/// beside it when it was asked to list, as a failure otherwise.
pub proof fn lemma_enumeration_failure(
    request: RequestView,
    candidates: Seq<PolicyCandidate>,
    code: i32,
    failed_with: i32,
    rest: Seq<EventView>,
)
    requires
        usable(code as int),
        !(request is Commit),
    ensures
        ({
            let run = history(
                request,
                candidates,
                seq![EventView::Status { code }, EventView::EnumerationFailed { code: failed_with }]
                    + rest,
            );
            &&& count(run.trace, ActionKind::Enumerate) == 1
            &&& instantiated(run.trace).len() == 0
            &&& committed(run.trace).len() == 0
            &&& finished(run) ==> reported(run.trace) == Some(
                failure(request, OperationError::Enumeration { code: failed_with }),
            )
        }),
{
    let second = EventView::EnumerationFailed { code: failed_with };
    let two = lemma_after_enumeration(request, candidates, code, second, rest);
    let result = failure(request, OperationError::Enumeration { code: failed_with });
    assert(concluded(two, result));
    lemma_advance_concluded(two, result, rest);
}

/// A listing holds the devices of the endpoints that were read, in their
/// order, and nothing else: endpoints without an identifier are left out,
/// and no policy call is made for a listing.
pub proof fn lemma_listing(
    candidates: Seq<PolicyCandidate>,
    code: i32,
    probes: Seq<ProbeView>,
    rest: Seq<EventView>,
)
    requires
        usable(code as int),
    ensures
        ({
            let run = history(
                RequestView::List,
                candidates,
                seq![EventView::Status { code }, EventView::Endpoints { probes }] + rest,
            );
            &&& identified(collect(probes))
            &&& count(run.trace, ActionKind::Enumerate) == 1
            &&& instantiated(run.trace).len() == 0
            &&& committed(run.trace).len() == 0
            &&& finished(run) ==> reported(run.trace) == Some(
                OutcomeView::Devices { devices: collect(probes), problem: None },
            )
        }),
{
    let second = EventView::Endpoints { probes };
    lemma_collected_are_identified(probes);
    let two = lemma_after_enumeration(RequestView::List, candidates, code, second, rest);
    let result = OutcomeView::Devices { devices: collect(probes), problem: None };
    assert(concluded(two, result));
    lemma_advance_concluded(two, result, rest);
}

/// Selection goes by the listing alone. Where no listed device meets the
/// criterion, the run reports that no match was found and makes no policy
/// call at all. Where one does, the only endpoint that the run ever makes
/// the default is the first listed device that meets the criterion, and
/// the run ends with that endpoint as the new default or with a failure of
/// the policy service.
pub proof fn lemma_selection(
    candidates: Seq<PolicyCandidate>,
    criterion: CriterionView,
    code: i32,
    probes: Seq<ProbeView>,
    rest: Seq<EventView>,
)
    requires
        usable(code as int),
    ensures
        ({
            let run = history(
                RequestView::Select(criterion),
                candidates,
                seq![EventView::Status { code }, EventView::Endpoints { probes }] + rest,
            );
            let devices = collect(probes);
            &&& count(run.trace, ActionKind::Enumerate) == 1
            &&& match first_match(devices, criterion) {
                None => {
                    &&& instantiated(run.trace).len() == 0
                    &&& committed(run.trace).len() == 0
                    &&& finished(run) ==> reported(run.trace) == Some(
                        OutcomeView::Failed(OperationError::NoMatchFound),
                    )
                },
                Some(index) => {
                    &&& committed(run.trace).len() == 0 || committed(run.trace)
                        == seq![devices[index].id]
                    &&& finished(run) ==> (reported(run.trace) matches Some(result) && aims_at(
                        result,
                        devices[index].id,
                    ))
                },
            }
        }),
{
    let request = RequestView::Select(criterion);
    let second = EventView::Endpoints { probes };
    let two = lemma_after_enumeration(request, candidates, code, second, rest);
    let devices = collect(probes);
    match first_match(devices, criterion) {
        None => {
            let result = OutcomeView::Failed(OperationError::NoMatchFound);
            assert(concluded(two, result));
            lemma_advance_concluded(two, result, rest);
        },
        Some(index) => {
            assert(aimed(two, devices[index].id));
            lemma_advance_aimed(two, devices[index].id, rest);
        },
    }
}

/// Making a known endpoint the default needs no listing: the run never
/// enumerates, the only endpoint that it ever makes the default is the one
/// that it was given, and it ends with that endpoint as the new default or
/// with a failure of the policy service.
pub proof fn lemma_direct_commit(
    candidates: Seq<PolicyCandidate>,
    id: Seq<char>,
    code: i32,
    rest: Seq<EventView>,
)
    requires
        usable(code as int),
    ensures
        ({
            let run = history(
                RequestView::Commit(id),
                candidates,
                seq![EventView::Status { code }] + rest,
            );
            &&& count(run.trace, ActionKind::Enumerate) == 0
            &&& committed(run.trace).len() == 0 || committed(run.trace) == seq![id]
            &&& finished(run) ==> (reported(run.trace) matches Some(result) && aims_at(
                result,
                id,
            ))
        }),
{
    let request = RequestView::Commit(id);
    let events = seq![EventView::Status { code }] + rest;
    let first = EventView::Status { code };
    lemma_history_coherent(request, candidates, events);
    lemma_history_frame(request, candidates, events);
    lemma_history_after_one(request, candidates, first, rest);
    let begun = started(request, candidates);
    lemma_started_untouched(request, candidates);
    lemma_trace_push(begun.trace, step_model(begun.state, first).1.unwrap());
    let one = deliver(begun, first);
    assert(aimed(one, id));
    lemma_advance_aimed(one, id, rest);
}

/// The fallback between the two known candidates. When this call
/// establishes the session, the first candidate gives no live instance and
/// the second does, the run makes exactly these calls, in this order: it
/// tries the first candidate once, the second once, sets the default once
/// through the pinned slot with the multimedia role, releases the instance
/// once, releases the session, and reports the endpoint as the new default.
pub proof fn lemma_fallback_to_second_candidate(
    id: Seq<char>,
    code: i32,
    first_code: i32,
    first_present: bool,
)
    requires
        owns(code as int),
        !is_live(first_code as int, first_present),
    ensures
        history(
            RequestView::Commit(id),
            known_candidates(),
            seq![
                EventView::Status { code },
                EventView::Instance { code: first_code, present: first_present },
                EventView::Instance { code: 0, present: true },
                EventView::Status { code: 0 },
                EventView::Released,
                EventView::Released,
            ],
        ).trace == seq![
            acquire(),
            instantiate(known_candidates()[0]),
            instantiate(known_candidates()[1]),
            set_default(id),
            release_instance(),
            ActionView::ReleaseSession,
            ActionView::Finish(OutcomeView::DefaultChanged { id }),
        ],
{
    let begun = started(RequestView::Commit(id), known_candidates());
    let e0 = EventView::Status { code };
    let e1 = EventView::Instance { code: first_code, present: first_present };
    let e2 = EventView::Instance { code: 0, present: true };
    let e3 = EventView::Status { code: 0 };
    let e4 = EventView::Released;
    let e5 = EventView::Released;
    let s0 = Seq::<EventView>::empty();
    let s1 = s0.push(e0);
    let s2 = s1.push(e1);
    let s3 = s2.push(e2);
    let s4 = s3.push(e3);
    let s5 = s4.push(e4);
    let s6 = s5.push(e5);
    lemma_advance_push(begun, s0, e0);
    lemma_advance_push(begun, s1, e1);
    lemma_advance_push(begun, s2, e2);
    lemma_advance_push(begun, s3, e3);
    lemma_advance_push(begun, s4, e4);
    lemma_advance_push(begun, s5, e5);
    assert(s6 == seq![e0, e1, e2, e3, e4, e5]);
    let r1 = deliver(begun, e0);
    let r2 = deliver(r1, e1);
    let r3 = deliver(r2, e2);
    let r4 = deliver(r3, e3);
    let r5 = deliver(r4, e4);
    let r6 = deliver(r5, e5);
    assert(advance(begun, s1) == r1);
    assert(advance(begun, s2) == r2);
    assert(advance(begun, s3) == r3);
    assert(advance(begun, s4) == r4);
    assert(advance(begun, s5) == r5);
    assert(advance(begun, s6) == r6);
    assert(r1.state.phase == PhaseView::Resolving { target: id, attempt: 0 });
    assert(r2.state.phase == PhaseView::Resolving { target: id, attempt: 1 });
    assert(r3.state.phase == PhaseView::Committing { target: id });
    assert(r6.trace == seq![
        acquire(),
        instantiate(known_candidates()[0]),
        instantiate(known_candidates()[1]),
        set_default(id),
        release_instance(),
        ActionView::ReleaseSession,
        ActionView::Finish(OutcomeView::DefaultChanged { id }),
    ]);
}

/// Selecting by the identifier of a device that the listing holds always
/// finds a device: the run never reports that no match was found, the only
/// endpoint that it ever makes the default has exactly that identifier, and
/// it ends with that endpoint as the new default unless the policy service
/// fails. Whether the device already is the default plays no part.
pub proof fn lemma_select_listed_id(
    candidates: Seq<PolicyCandidate>,
    code: i32,
    probes: Seq<ProbeView>,
    place: int,
    rest: Seq<EventView>,
)
    requires
        usable(code as int),
        0 <= place < collect(probes).len(),
    ensures
        ({
            let id = collect(probes)[place].id;
            let run = history(
                RequestView::Select(CriterionView::ExactId(id)),
                candidates,
                seq![EventView::Status { code }, EventView::Endpoints { probes }] + rest,
            );
            &&& committed(run.trace).len() == 0 || committed(run.trace) == seq![id]
            &&& finished(run) ==> (reported(run.trace) matches Some(result) && aims_at(result, id))
        }),
{
    let id = collect(probes)[place].id;
    lemma_listed_id_is_found(collect(probes), place);
    lemma_selection(candidates, CriterionView::ExactId(id), code, probes, rest);
}

/// A reply that does not answer the call that is awaited changes nothing.
pub proof fn lemma_rejected_reply_changes_nothing(op: OperationView, event: EventView)
    ensures
        step_model(op, event).1 is None ==> step_model(op, event).0 == op,
{
}

/// A run that has ended takes no more replies: whatever is handed over
/// afterwards, its state and its calls stay as they are.
pub proof fn lemma_finished_is_final(
    request: RequestView,
    candidates: Seq<PolicyCandidate>,
    events: Seq<EventView>,
    later: Seq<EventView>,
)
    requires
        finished(history(request, candidates, events)),
    ensures
        history(request, candidates, events + later) == history(request, candidates, events),
{
    lemma_advance_concat(started(request, candidates), events, later);
    lemma_advance_finished(history(request, candidates, events), later);
}

/// The call is one that an operation with these candidates may ask for:
/// every parameter of the platform is the pinned one, and a candidate is
/// one of the list.
pub open spec fn is_pinned(action: ActionView, candidates: Seq<PolicyCandidate>) -> bool {
    match action {
        ActionView::AcquireSession { .. } => action == acquire(),
        ActionView::Enumerate { .. } => action == enumerate(),
        ActionView::Instantiate { candidate, .. } => action == instantiate(candidate)
            && candidates.contains(candidate),
        ActionView::SetDefaultEndpoint { id, .. } => action == set_default(id),
        ActionView::ReleaseInstance { .. } => action == release_instance(),
        ActionView::ReleaseSession => true,
        ActionView::Finish(_) => true,
    }
}

/// Every call of every run is made with the pinned parameters: the
/// apartment model, the active endpoints that render, every context, the
/// pinned slots of the table and the multimedia role; and no candidate is
/// tried that is not in the list.
pub proof fn lemma_calls_are_pinned(
    request: RequestView,
    candidates: Seq<PolicyCandidate>,
    events: Seq<EventView>,
)
    ensures
        forall|k: int|
            0 <= k < history(request, candidates, events).trace.len() ==> is_pinned(
                #[trigger] history(request, candidates, events).trace[k],
                candidates,
            ),
    decreases events.len(),
{
    if events.len() > 0 {
        lemma_calls_are_pinned(request, candidates, events.drop_last());
        lemma_history_frame(request, candidates, events.drop_last());
    }
}

/// No live instance has come back, and so no call to set the default, nor
/// to release an instance, has been made.
spec fn unserved(run: Run) -> bool {
    &&& committed(run.trace).len() == 0
    &&& count(run.trace, ActionKind::ReleaseInstance) == 0
    &&& !(run.state.phase is Committing)
    &&& !(run.state.phase is ReleasingInstance)
}

proof fn lemma_advance_unserved(run: Run, events: Seq<EventView>)
    requires
        unserved(run),
        forall|k: int|
            0 <= k < events.len() ==> (#[trigger] events[k] matches EventView::Instance {
                code,
                present,
            } ==> !is_live(code as int, present)),
    ensures
        unserved(advance(run, events)),
    decreases events.len(),
{
    if events.len() > 0 {
        let earlier = events.drop_last();
        assert forall|k: int| 0 <= k < earlier.len() implies (#[trigger] earlier[k] matches EventView::Instance {
            code,
            present,
        } ==> !is_live(code as int, present)) by {
            assert(earlier[k] == events[k]);
        }
        lemma_advance_unserved(run, earlier);
        let before = advance(run, earlier);
        let (next, action) = step_model(before.state, events.last());
        match action {
            Some(action) => {
                lemma_trace_push(before.trace, action);
            },
            None => {},
        }
    }
}

/// Without a live instance nothing is set: in a run in which no
/// instantiation gives a live instance, "set default endpoint" is never
/// called and no instance is released, and the run never reports a new
/// default.
pub proof fn lemma_no_instance_no_commit(
    request: RequestView,
    candidates: Seq<PolicyCandidate>,
    events: Seq<EventView>,
)
    requires
        forall|k: int|
            0 <= k < events.len() ==> (#[trigger] events[k] matches EventView::Instance {
                code,
                present,
            } ==> !is_live(code as int, present)),
    ensures
        ({
            let run = history(request, candidates, events);
            &&& committed(run.trace).len() == 0
            &&& count(run.trace, ActionKind::ReleaseInstance) == 0
            &&& !(reported(run.trace) matches Some(OutcomeView::DefaultChanged { .. }))
        }),
{
    let begun = started(request, candidates);
    lemma_started_untouched(request, candidates);
    lemma_advance_unserved(begun, events);
    lemma_history_coherent(request, candidates, events);
    lemma_history_reports_at_end(request, candidates, events);
}

/// The call that each phase waits on.
spec fn awaited(phase: PhaseView) -> ActionKind {
    match phase {
        PhaseView::Acquiring => ActionKind::AcquireSession,
        PhaseView::Enumerating => ActionKind::Enumerate,
        PhaseView::Resolving { .. } => ActionKind::Instantiate,
        PhaseView::Committing { .. } => ActionKind::SetDefaultEndpoint,
        PhaseView::ReleasingInstance { .. } => ActionKind::ReleaseInstance,
        PhaseView::ReleasingSession { .. } => ActionKind::ReleaseSession,
        PhaseView::Finished => ActionKind::Finish,
    }
}

/// The call at place `k` of a trace stands where it may: the acquisition
/// first, the release of the instance right after the call on it, nothing
/// but the end after the release of the session, and nothing after the end.
pub open spec fn in_order(trace: Seq<ActionView>, k: int) -> bool {
    match trace[k] {
        ActionView::AcquireSession { .. } => k == 0,
        ActionView::SetDefaultEndpoint { .. } => k + 1 < trace.len() ==> trace[k + 1]
            is ReleaseInstance,
        ActionView::ReleaseInstance { .. } => k > 0 && trace[k - 1] is SetDefaultEndpoint,
        ActionView::ReleaseSession => k + 1 < trace.len() ==> trace[k + 1] is Finish,
        ActionView::Finish(_) => k + 1 == trace.len(),
        _ => k > 0,
    }
}

spec fn ordered(run: Run) -> bool {
    &&& run.trace.len() > 0
    &&& kind_of(run.trace.last()) == awaited(run.state.phase)
    &&& forall|k: int| 0 <= k < run.trace.len() ==> in_order(run.trace, k)
}

proof fn lemma_deliver_ordered(run: Run, event: EventView)
    requires
        ordered(run),
    ensures
        ordered(deliver(run, event)),
{
    let (next, action) = step_model(run.state, event);
    match action {
        Some(action) => {
            let longer = run.trace.push(action);
            assert forall|k: int| 0 <= k < longer.len() implies in_order(longer, k) by {
                if k < run.trace.len() {
                    assert(in_order(run.trace, k));
                    assert(longer[k] == run.trace[k]);
                    if k + 1 < run.trace.len() {
                        assert(longer[k + 1] == run.trace[k + 1]);
                    }
                    if k > 0 {
                        assert(longer[k - 1] == run.trace[k - 1]);
                    }
                }
            }
        },
        None => {},
    }
}

/// The calls of every run stand in order. The acquisition of the session is
/// the first call and is never repeated; the instance is released right
/// after the one call that is made on it, whatever that call answered; the
/// release of the session is followed by the end alone; and the end is the
/// last call. So the session brackets all the work of a run.
pub proof fn lemma_calls_are_bracketed(
    request: RequestView,
    candidates: Seq<PolicyCandidate>,
    events: Seq<EventView>,
)
    ensures
        forall|k: int|
            0 <= k < history(request, candidates, events).trace.len() ==> in_order(
                history(request, candidates, events).trace,
                k,
            ),
{
    lemma_history_ordered(request, candidates, events);
}

proof fn lemma_history_ordered(
    request: RequestView,
    candidates: Seq<PolicyCandidate>,
    events: Seq<EventView>,
)
    ensures
        ordered(history(request, candidates, events)),
    decreases events.len(),
{
    if events.len() > 0 {
        lemma_history_ordered(request, candidates, events.drop_last());
        lemma_deliver_ordered(history(request, candidates, events.drop_last()), events.last());
    }
}

} // verus!
