use audio_switch::{
    commit_default, list_devices, replay, set_default_output_by_name, Action, EndpointProbe, Event,
    Operation, OperationError, Outcome, PolicyCandidate, Request,
};

fn step_by_step(start: (Operation, Action), events: Vec<Event>) -> (Operation, Vec<Action>) {
    let (mut operation, first) = start;
    let mut trace = vec![first];
    for event in events {
        let (next, action) = operation.step(event);
        operation = next;
        trace.extend(action);
    }
    (operation, trace)
}

fn scripts() -> Vec<Vec<Event>> {
    let endpoints = || Event::Endpoints {
        probes: vec![
            EndpointProbe { id: Some("a".to_string()), name: Some("Speakers".to_string()) },
            EndpointProbe { id: Some("b".to_string()), name: Some("USB Speaker".to_string()) },
        ],
    };
    vec![
        vec![],
        vec![Event::Status { code: -1 }],
        vec![Event::Status { code: 0 }, endpoints(), Event::Released],
        vec![Event::Released, Event::Status { code: 0 }, Event::Status { code: 0 }, endpoints()],
        vec![
            Event::Status { code: 0 },
            endpoints(),
            Event::Instance { code: -1, present: false },
            Event::Instance { code: 0, present: true },
            Event::Status { code: 0 },
            Event::Released,
            Event::Released,
            Event::Released,
        ],
        vec![
            Event::Status { code: 0 },
            Event::Instance { code: 0, present: true },
            Event::Status { code: -7 },
            Event::Released,
            Event::Released,
        ],
    ]
}

#[test]
fn replay_is_stepping_through_the_replies() {
    for events in scripts() {
        assert_eq!(replay(list_devices(), events.clone()), step_by_step(list_devices(), events.clone()));
        assert_eq!(
            replay(set_default_output_by_name("usb"), events.clone()),
            step_by_step(set_default_output_by_name("usb"), events.clone())
        );
        assert_eq!(replay(commit_default("b"), events.clone()), step_by_step(commit_default("b"), events));
    }
}

#[test]
fn replay_without_replies_gives_the_first_call() {
    let (operation, trace) = replay(list_devices(), Vec::new());
    assert!(!operation.is_finished());
    assert_eq!(trace, vec![Action::AcquireSession { model: 2 }]);
}

#[test]
fn replay_leaves_out_replies_out_of_turn() {
    let (operation, trace) = replay(
        set_default_output_by_name("usb"),
        vec![
            Event::Released,
            Event::Instance { code: 0, present: true },
            Event::Status { code: 0 },
            Event::Status { code: 0 },
            Event::Released,
        ],
    );
    assert!(!operation.is_finished());
    assert_eq!(
        trace,
        vec![Action::AcquireSession { model: 2 }, Action::Enumerate { flow: 0, states: 1 }]
    );
}

#[test]
fn replay_of_a_whole_selection() {
    let (operation, trace) = replay(
        Operation::begin(
            Request::Commit("endpoint".to_string()),
            vec![PolicyCandidate { class_id: 7, interface_id: 8 }],
        ),
        vec![
            Event::Status { code: 0 },
            Event::Instance { code: 0, present: true },
            Event::Status { code: -3 },
            Event::Released,
            Event::Released,
        ],
    );
    assert!(operation.is_finished());
    assert_eq!(
        trace,
        vec![
            Action::AcquireSession { model: 2 },
            Action::Instantiate {
                candidate: PolicyCandidate { class_id: 7, interface_id: 8 },
                context: 23
            },
            Action::SetDefaultEndpoint { id: "endpoint".to_string(), slot: 12, role: 1 },
            Action::ReleaseInstance { slot: 2 },
            Action::ReleaseSession,
            Action::Finish(Outcome::Failed(OperationError::PolicyCommit { code: -3 })),
        ]
    );
}

#[test]
fn calls_of_every_replay_stand_in_order() {
    for events in scripts() {
        for start in [list_devices(), set_default_output_by_name("speaker"), commit_default("a")] {
            let (_, trace) = replay(start, events.clone());
            for (k, action) in trace.iter().enumerate() {
                match action {
                    Action::AcquireSession { .. } => assert_eq!(k, 0),
                    Action::SetDefaultEndpoint { .. } => {
                        if k + 1 < trace.len() {
                            assert!(matches!(trace[k + 1], Action::ReleaseInstance { .. }));
                        }
                    }
                    Action::ReleaseInstance { .. } => {
                        assert!(k > 0 && matches!(trace[k - 1], Action::SetDefaultEndpoint { .. }));
                    }
                    Action::ReleaseSession => {
                        if k + 1 < trace.len() {
                            assert!(matches!(trace[k + 1], Action::Finish(_)));
                        }
                    }
                    Action::Finish(_) => assert_eq!(k + 1, trace.len()),
                    _ => assert!(k > 0),
                }
            }
        }
    }
}
