//! One public operation as a state machine.
//!
//! An operation lists the endpoints, selects one by a criterion and makes it
//! the default, or makes a known endpoint the default. It never calls the
//! platform: it names the call to make, and is told what came back.

use vstd::prelude::*;
use crate::device::{
    collect, collect_devices, AudioDevice, DeviceView, EndpointProbe, ProbeView, FLOW_RENDER,
    STATE_ACTIVE,
};
use crate::error::OperationError;
use crate::policy::{
    commit_succeeded, instance_is_live, is_live, PolicyCandidate, CONTEXT_ALL, RELEASE_SLOT,
    ROLE_MULTIMEDIA, SET_DEFAULT_ENDPOINT_SLOT,
};
use crate::selector::{find_match, first_match, CriterionView, MatchCriterion};
use crate::session::{classify_acquisition, owns, usable, APARTMENT_THREADED};

verus! {

/// What an operation is asked to do.
#[derive(Clone, Debug, PartialEq, Eq)]
pub enum Request {
    /// List the active output endpoints.
    List,
    /// Make the first endpoint that meets the criterion the default.
    Select(MatchCriterion),
    /// Make the endpoint with this identifier the default, without listing.
    Commit(String),
}

/// Mathematical value of a [`Request`].
pub enum RequestView {
    List,
    Select(CriterionView),
    Commit(Seq<char>),
}

impl View for Request {
    type V = RequestView;

    open spec fn view(&self) -> RequestView {
        match self {
            Request::List => RequestView::List,
            Request::Select(criterion) => RequestView::Select(criterion@),
            Request::Commit(id) => RequestView::Commit(id@),
        }
    }
}

/// How an operation ended.
#[derive(Clone, Debug, PartialEq, Eq)]
pub enum Outcome {
    /// The listing. Where it could not be made it is empty, and `problem`
    /// says why.
    Devices { devices: Vec<AudioDevice>, problem: Option<OperationError> },
    /// The endpoint with this identifier is now the default.
    DefaultChanged { id: String },
    /// Nothing was changed.
    Failed(OperationError),
}

/// Mathematical value of an [`Outcome`].
pub enum OutcomeView {
    Devices { devices: Seq<DeviceView>, problem: Option<OperationError> },
    DefaultChanged { id: Seq<char> },
    Failed(OperationError),
}

impl View for Outcome {
    type V = OutcomeView;

    open spec fn view(&self) -> OutcomeView {
        match self {
            Outcome::Devices { devices, problem } => OutcomeView::Devices {
                devices: devices.deep_view(),
                problem: *problem,
            },
            Outcome::DefaultChanged { id } => OutcomeView::DefaultChanged { id: id@ },
            Outcome::Failed(error) => OutcomeView::Failed(*error),
        }
    }
}

/// The platform call that the caller has to make next.
#[derive(Clone, Debug, PartialEq, Eq)]
pub enum Action {
    /// Establish the threading model `model` on this thread; answered by
    /// [`Event::Status`].
    AcquireSession { model: i32 },
    /// Read every endpoint of the direction `flow` that is in one of the
    /// states `states`; answered by [`Event::Endpoints`] or
    /// [`Event::EnumerationFailed`].
    Enumerate { flow: i32, states: u32 },
    /// Instantiate the policy service in the contexts `context`; answered
    /// by [`Event::Instance`].
    Instantiate { candidate: PolicyCandidate, context: u32 },
    /// Call the function at `slot` of the instance's table with the
    /// endpoint and the role; answered by [`Event::Status`].
    SetDefaultEndpoint { id: String, slot: usize, role: u32 },
    /// Call the release function at `slot` of the instance's table;
    /// answered by [`Event::Released`].
    ReleaseInstance { slot: usize },
    /// Give the threading model back; answered by [`Event::Released`].
    ReleaseSession,
    /// Nothing is left to do: the operation ended in this way.
    Finish(Outcome),
}

/// Mathematical value of an [`Action`].
pub enum ActionView {
    AcquireSession { model: i32 },
    Enumerate { flow: i32, states: u32 },
    Instantiate { candidate: PolicyCandidate, context: u32 },
    SetDefaultEndpoint { id: Seq<char>, slot: usize, role: u32 },
    ReleaseInstance { slot: usize },
    ReleaseSession,
    Finish(OutcomeView),
}

impl View for Action {
    type V = ActionView;

    open spec fn view(&self) -> ActionView {
        match self {
            Action::AcquireSession { model } => ActionView::AcquireSession { model: *model },
            Action::Enumerate { flow, states } => ActionView::Enumerate {
                flow: *flow,
                states: *states,
            },
            Action::Instantiate { candidate, context } => ActionView::Instantiate {
                candidate: *candidate,
                context: *context,
            },
            Action::SetDefaultEndpoint { id, slot, role } => ActionView::SetDefaultEndpoint {
                id: id@,
                slot: *slot,
                role: *role,
            },
            Action::ReleaseInstance { slot } => ActionView::ReleaseInstance { slot: *slot },
            Action::ReleaseSession => ActionView::ReleaseSession,
            Action::Finish(outcome) => ActionView::Finish(outcome@),
        }
    }
}

impl DeepView for Action {
    type V = ActionView;

    open spec fn deep_view(&self) -> ActionView {
        self@
    }
}

/// What the platform answered.
#[derive(Clone, Debug, PartialEq, Eq)]
pub enum Event {
    /// The status of an acquisition or of "set default endpoint".
    Status { code: i32 },
    /// What reading each endpoint of the collection gave, in its order.
    Endpoints { probes: Vec<EndpointProbe> },
    /// The collection, or its length, could not be had.
    EnumerationFailed { code: i32 },
    /// The status of an instantiation, and whether a reference came back.
    Instance { code: i32, present: bool },
    /// A release was made.
    Released,
}

/// Mathematical value of an [`Event`].
pub enum EventView {
    Status { code: i32 },
    Endpoints { probes: Seq<ProbeView> },
    EnumerationFailed { code: i32 },
    Instance { code: i32, present: bool },
    Released,
}

impl View for Event {
    type V = EventView;

    open spec fn view(&self) -> EventView {
        match self {
            Event::Status { code } => EventView::Status { code: *code },
            Event::Endpoints { probes } => EventView::Endpoints { probes: probes.deep_view() },
            Event::EnumerationFailed { code } => EventView::EnumerationFailed { code: *code },
            Event::Instance { code, present } => EventView::Instance {
                code: *code,
                present: *present,
            },
            Event::Released => EventView::Released,
        }
    }
}

impl DeepView for Event {
    type V = EventView;

    open spec fn deep_view(&self) -> EventView {
        self@
    }
}

/// Where an operation stands: the reply that it waits for.
#[derive(Clone, Debug, PartialEq, Eq)]
pub enum Phase {
    /// Waits for the status of the acquisition.
    Acquiring,
    /// Waits for the endpoints.
    Enumerating,
    /// Waits for the instantiation of candidate number `attempt`.
    Resolving { target: String, attempt: usize },
    /// Waits for the status of "set default endpoint".
    Committing { target: String },
    /// Waits for the release of the instance.
    ReleasingInstance { result: Outcome },
    /// Waits for the release of the session.
    ReleasingSession { result: Outcome },
    /// Has ended; takes no more replies.
    Finished,
}

/// Mathematical value of a [`Phase`].
pub enum PhaseView {
    Acquiring,
    Enumerating,
    Resolving { target: Seq<char>, attempt: int },
    Committing { target: Seq<char> },
    ReleasingInstance { result: OutcomeView },
    ReleasingSession { result: OutcomeView },
    Finished,
}

impl View for Phase {
    type V = PhaseView;

    open spec fn view(&self) -> PhaseView {
        match self {
            Phase::Acquiring => PhaseView::Acquiring,
            Phase::Enumerating => PhaseView::Enumerating,
            Phase::Resolving { target, attempt } => PhaseView::Resolving {
                target: target@,
                attempt: *attempt as int,
            },
            Phase::Committing { target } => PhaseView::Committing { target: target@ },
            Phase::ReleasingInstance { result } => PhaseView::ReleasingInstance { result: result@ },
            Phase::ReleasingSession { result } => PhaseView::ReleasingSession { result: result@ },
            Phase::Finished => PhaseView::Finished,
        }
    }
}

/// An operation under way.
#[derive(Clone, Debug, PartialEq, Eq)]
pub struct Operation {
    request: Request,
    candidates: Vec<PolicyCandidate>,
    owned: bool,
    phase: Phase,
}

/// Mathematical value of an [`Operation`].
pub struct OperationView {
    /// What was asked.
    pub request: RequestView,
    /// The policy candidates, in the order in which they are tried.
    pub candidates: Seq<PolicyCandidate>,
    /// Whether this operation established the session and has to release it.
    pub owned: bool,
    /// The reply that is awaited.
    pub phase: PhaseView,
}

impl View for Operation {
    type V = OperationView;

    closed spec fn view(&self) -> OperationView {
        OperationView {
            request: self.request@,
            candidates: self.candidates@,
            owned: self.owned,
            phase: self.phase@,
        }
    }
}

/// The call that establishes the session: always for the apartment model.
pub open spec fn acquire() -> ActionView {
    ActionView::AcquireSession { model: APARTMENT_THREADED }
}

/// The call that reads the endpoints: always the active ones that render.
pub open spec fn enumerate() -> ActionView {
    ActionView::Enumerate { flow: FLOW_RENDER, states: STATE_ACTIVE }
}

/// The call that instantiates the policy service by one candidate.
pub open spec fn instantiate(candidate: PolicyCandidate) -> ActionView {
    ActionView::Instantiate { candidate, context: CONTEXT_ALL }
}

/// The call that makes `id` the default: through the pinned slot, for the
/// multimedia role.
pub open spec fn set_default(id: Seq<char>) -> ActionView {
    ActionView::SetDefaultEndpoint { id, slot: SET_DEFAULT_ENDPOINT_SLOT, role: ROLE_MULTIMEDIA }
}

/// The call that releases the policy instance, through the pinned slot.
pub open spec fn release_instance() -> ActionView {
    ActionView::ReleaseInstance { slot: RELEASE_SLOT }
}

/// The state of an operation before any reply.
pub open spec fn initial(request: RequestView, candidates: Seq<PolicyCandidate>) -> OperationView {
    OperationView { request, candidates, owned: false, phase: PhaseView::Acquiring }
}

/// How a failure is reported: a listing is never refused, it comes back
/// empty with the failure beside it; every other request fails.
pub open spec fn failure(request: RequestView, error: OperationError) -> OutcomeView {
    match request {
        RequestView::List => OutcomeView::Devices { devices: Seq::empty(), problem: Some(error) },
        _ => OutcomeView::Failed(error),
    }
}

/// With the work over: the session is released if this operation owns it,
/// and only then; otherwise the operation ends at once.
pub open spec fn wind_down(op: OperationView, result: OutcomeView) -> (
    OperationView,
    Option<ActionView>,
) {
    if op.owned {
        (
            OperationView { phase: PhaseView::ReleasingSession { result }, ..op },
            Some(ActionView::ReleaseSession),
        )
    } else {
        (OperationView { phase: PhaseView::Finished, ..op }, Some(ActionView::Finish(result)))
    }
}

/// With the endpoint known: the first candidate is tried, if there is one.
pub open spec fn start_resolution(op: OperationView, target: Seq<char>) -> (
    OperationView,
    Option<ActionView>,
) {
    if op.candidates.len() == 0 {
        wind_down(op, OutcomeView::Failed(OperationError::PolicyResolution { code: None }))
    } else {
        (
            OperationView { phase: PhaseView::Resolving { target, attempt: 0 }, ..op },
            Some(instantiate(op.candidates[0])),
        )
    }
}

/// What the status of "set default endpoint" means for the endpoint `target`.
pub open spec fn commit_result(target: Seq<char>, code: i32) -> OutcomeView {
    if code == 0 {
        OutcomeView::DefaultChanged { id: target }
    } else {
        OutcomeView::Failed(OperationError::PolicyCommit { code })
    }
}

/// The transition of the machine: the state after `event`, and the next
/// call to make. A reply that does not answer the call that is awaited
/// changes nothing and asks for nothing.
pub open spec fn step_model(op: OperationView, event: EventView) -> (
    OperationView,
    Option<ActionView>,
) {
    match (op.phase, event) {
        (PhaseView::Acquiring, EventView::Status { code }) => {
            if !usable(code as int) {
                (
                    OperationView { phase: PhaseView::Finished, ..op },
                    Some(
                        ActionView::Finish(
                            failure(op.request, OperationError::ResourceInit { code }),
                        ),
                    ),
                )
            } else {
                let held = OperationView { owned: owns(code as int), ..op };
                match op.request {
                    RequestView::Commit(id) => start_resolution(held, id),
                    _ => (
                        OperationView { phase: PhaseView::Enumerating, ..held },
                        Some(enumerate()),
                    ),
                }
            }
        },
        (PhaseView::Enumerating, EventView::EnumerationFailed { code }) => wind_down(
            op,
            failure(op.request, OperationError::Enumeration { code }),
        ),
        (PhaseView::Enumerating, EventView::Endpoints { probes }) => {
            let devices = collect(probes);
            match op.request {
                RequestView::List => wind_down(
                    op,
                    OutcomeView::Devices { devices, problem: None },
                ),
                RequestView::Select(criterion) => match first_match(devices, criterion) {
                    Some(index) => start_resolution(op, devices[index].id),
                    None => wind_down(op, OutcomeView::Failed(OperationError::NoMatchFound)),
                },
                RequestView::Commit(_) => (op, None),
            }
        },
        (PhaseView::Resolving { target, attempt }, EventView::Instance { code, present }) => {
            if is_live(code as int, present) {
                (
                    OperationView { phase: PhaseView::Committing { target }, ..op },
                    Some(set_default(target)),
                )
            } else if 0 <= attempt && attempt + 1 < op.candidates.len() {
                (
                    OperationView {
                        phase: PhaseView::Resolving { target, attempt: attempt + 1 },
                        ..op
                    },
                    Some(instantiate(op.candidates[attempt + 1])),
                )
            } else {
                wind_down(
                    op,
                    OutcomeView::Failed(OperationError::PolicyResolution { code: Some(code) }),
                )
            }
        },
        (PhaseView::Committing { target }, EventView::Status { code }) => (
            OperationView {
                phase: PhaseView::ReleasingInstance { result: commit_result(target, code) },
                ..op
            },
            Some(release_instance()),
        ),
        (PhaseView::ReleasingInstance { result }, EventView::Released) => wind_down(op, result),
        (PhaseView::ReleasingSession { result }, EventView::Released) => (
            OperationView { phase: PhaseView::Finished, ..op },
            Some(ActionView::Finish(result)),
        ),
        _ => (op, None),
    }
}

impl Operation {
    /// Starts an operation. The first call to make is always the
    /// acquisition of the session.
    pub fn begin(request: Request, candidates: Vec<PolicyCandidate>) -> (start: (Operation, Action))
        ensures
            start.0@ == initial(request@, candidates@),
            start.1@ == acquire(),
    {
        (
            Operation { request, candidates, owned: false, phase: Phase::Acquiring },
            Action::AcquireSession { model: APARTMENT_THREADED },
        )
    }

    /// Whether the operation has ended.
    pub fn is_finished(&self) -> (done: bool)
        ensures
            done == (self@.phase is Finished),
    {
        match &self.phase {
            Phase::Finished => true,
            _ => false,
        }
    }

    /// Whether this operation established the session itself.
    pub fn owns_session(&self) -> (owned: bool)
        ensures
            owned == self@.owned,
    {
        self.owned
    }

    fn report(request: &Request, error: OperationError) -> (result: Outcome)
        ensures
            result@ == failure(request@, error),
    {
        match request {
            Request::List => {
                let devices: Vec<AudioDevice> = Vec::new();
                assert(devices.deep_view() =~= Seq::<DeviceView>::empty());
                Outcome::Devices { devices, problem: Some(error) }
            },
            _ => Outcome::Failed(error),
        }
    }

    fn wind_down(self, result: Outcome) -> (next: (Operation, Option<Action>))
        ensures
            (next.0@, next.1.deep_view()) == wind_down(self@, result@),
    {
        let Operation { request, candidates, owned, phase: _ } = self;
        if owned {
            (
                Operation { request, candidates, owned, phase: Phase::ReleasingSession { result } },
                Some(Action::ReleaseSession),
            )
        } else {
            (
                Operation { request, candidates, owned, phase: Phase::Finished },
                Some(Action::Finish(result)),
            )
        }
    }

    fn start_resolution(self, target: String) -> (next: (Operation, Option<Action>))
        ensures
            (next.0@, next.1.deep_view()) == start_resolution(self@, target@),
    {
        if self.candidates.len() == 0 {
            self.wind_down(Outcome::Failed(OperationError::PolicyResolution { code: None }))
        } else {
            let candidate = self.candidates[0];
            let Operation { request, candidates, owned, phase: _ } = self;
            (
                Operation { request, candidates, owned, phase: Phase::Resolving { target, attempt: 0 } },
                Some(Action::Instantiate { candidate, context: CONTEXT_ALL }),
            )
        }
    }

    /// Takes the reply to the call that was asked for last, and says what to
    /// do next. `None` means that the reply did not answer that call: the
    /// operation is as it was.
    pub fn step(self, event: Event) -> (next: (Operation, Option<Action>))
        ensures
            (next.0@, next.1.deep_view()) == step_model(self@, event@),
    {
        let Operation { request, candidates, owned, phase } = self;
        match (phase, event) {
            (Phase::Acquiring, Event::Status { code }) => {
                let acquisition = classify_acquisition(code);
                if !acquisition.usable() {
                    let result = Self::report(&request, OperationError::ResourceInit { code });
                    (
                        Operation { request, candidates, owned, phase: Phase::Finished },
                        Some(Action::Finish(result)),
                    )
                } else {
                    let owned = acquisition.must_release();
                    match &request {
                        Request::Commit(id) => {
                            let target = id.clone();
                            let held = Operation { request, candidates, owned, phase: Phase::Acquiring };
                            held.start_resolution(target)
                        },
                        _ => (
                            Operation { request, candidates, owned, phase: Phase::Enumerating },
                            Some(Action::Enumerate { flow: FLOW_RENDER, states: STATE_ACTIVE }),
                        ),
                    }
                }
            },
            (Phase::Enumerating, Event::EnumerationFailed { code }) => {
                let result = Self::report(&request, OperationError::Enumeration { code });
                let op = Operation { request, candidates, owned, phase: Phase::Enumerating };
                op.wind_down(result)
            },
            (Phase::Enumerating, Event::Endpoints { probes }) => {
                match &request {
                    Request::List => {
                        let devices = collect_devices(&probes);
                        let op = Operation { request, candidates, owned, phase: Phase::Enumerating };
                        op.wind_down(Outcome::Devices { devices, problem: None })
                    },
                    Request::Select(criterion) => {
                        let devices = collect_devices(&probes);
                        match find_match(&devices, criterion) {
                            Some(index) => {
                                let target = devices[index].id.clone();
                                let op = Operation { request, candidates, owned, phase: Phase::Enumerating };
                                op.start_resolution(target)
                            },
                            None => {
                                let op = Operation { request, candidates, owned, phase: Phase::Enumerating };
                                op.wind_down(Outcome::Failed(OperationError::NoMatchFound))
                            },
                        }
                    },
                    Request::Commit(_) => (
                        Operation { request, candidates, owned, phase: Phase::Enumerating },
                        None,
                    ),
                }
            },
            (Phase::Resolving { target, attempt }, Event::Instance { code, present }) => {
                if instance_is_live(code, present) {
                    let id = target.clone();
                    (
                        Operation { request, candidates, owned, phase: Phase::Committing { target } },
                        Some(
                            Action::SetDefaultEndpoint {
                                id,
                                slot: SET_DEFAULT_ENDPOINT_SLOT,
                                role: ROLE_MULTIMEDIA,
                            },
                        ),
                    )
                } else if attempt < candidates.len() && attempt + 1 < candidates.len() {
                    let candidate = candidates[attempt + 1];
                    (
                        Operation {
                            request,
                            candidates,
                            owned,
                            phase: Phase::Resolving { target, attempt: attempt + 1 },
                        },
                        Some(Action::Instantiate { candidate, context: CONTEXT_ALL }),
                    )
                } else {
                    let op = Operation {
                        request,
                        candidates,
                        owned,
                        phase: Phase::Resolving { target, attempt },
                    };
                    op.wind_down(
                        Outcome::Failed(OperationError::PolicyResolution { code: Some(code) }),
                    )
                }
            },
            (Phase::Committing { target }, Event::Status { code }) => {
                let result = if commit_succeeded(code) {
                    Outcome::DefaultChanged { id: target }
                } else {
                    Outcome::Failed(OperationError::PolicyCommit { code })
                };
                (
                    Operation { request, candidates, owned, phase: Phase::ReleasingInstance { result } },
                    Some(Action::ReleaseInstance { slot: RELEASE_SLOT }),
                )
            },
            (Phase::ReleasingInstance { result }, Event::Released) => {
                let op = Operation { request, candidates, owned, phase: Phase::Finished };
                op.wind_down(result)
            },
            (Phase::ReleasingSession { result }, Event::Released) => (
                Operation { request, candidates, owned, phase: Phase::Finished },
                Some(Action::Finish(result)),
            ),
            (phase, _) => (Operation { request, candidates, owned, phase }, None),
        }
    }
}

} // verus!
