use audio_switch::{
    respond, set_default_output_by_name, Action, Alias, AudioDevice, AudioTools, Dispatch,
    EndpointProbe, Event, OperationError, Outcome, ToolRequest, ToolResponse,
};

fn request(tool: &str, option: &str) -> ToolRequest {
    ToolRequest { tool: tool.to_string(), option: option.to_string() }
}

#[test]
fn headphones_selects_by_headphone() {
    let tools = AudioTools::new();
    assert_eq!(
        tools.change_audio_device(&request("change_audio_device", "headphones")),
        Dispatch::SelectByName("headphone".to_string())
    );
}

#[test]
fn usb_speaker_selects_by_usb_speaker() {
    let tools = AudioTools::new();
    assert_eq!(
        tools.change_audio_device(&request("change_audio_device", "usb speaker")),
        Dispatch::SelectByName("usb speaker".to_string())
    );
}

#[test]
fn bogus_option_is_refused_without_a_selection() {
    let tools = AudioTools::new();
    assert_eq!(
        tools.change_audio_device(&request("change_audio_device", "bogus")),
        Dispatch::Reply(ToolResponse::Error("invalid tool or option".to_string()))
    );
}

#[test]
fn options_are_matched_exactly() {
    let tools = AudioTools::new();
    let refused = Dispatch::Reply(ToolResponse::Error("invalid tool or option".to_string()));
    for option in ["", "headphone", "Headphones", "headphones ", "usb", "usb  speaker"] {
        assert_eq!(tools.change_audio_device(&request("change_audio_device", option)), refused);
    }
}

#[test]
fn tool_name_plays_no_part() {
    let tools = AudioTools::new();
    for tool in ["change_audio_device", "", "something else"] {
        assert_eq!(
            tools.change_audio_device(&request(tool, "headphones")),
            Dispatch::SelectByName("headphone".to_string())
        );
        assert_eq!(
            tools.change_audio_device(&request(tool, "bogus")),
            Dispatch::Reply(ToolResponse::Error("invalid tool or option".to_string()))
        );
    }
}

#[test]
fn own_aliases_replace_the_known_ones() {
    let tools = AudioTools::with_aliases(vec![
        Alias { option: "tv".to_string(), pattern: "hdmi".to_string() },
        Alias { option: "tv".to_string(), pattern: "never".to_string() },
    ]);
    assert_eq!(
        tools.change_audio_device(&request("t", "tv")),
        Dispatch::SelectByName("hdmi".to_string())
    );
    assert_eq!(
        tools.change_audio_device(&request("t", "headphones")),
        Dispatch::Reply(ToolResponse::Error("invalid tool or option".to_string()))
    );
}

#[test]
fn no_aliases_refuse_everything() {
    let tools = AudioTools::with_aliases(Vec::new());
    assert_eq!(
        tools.change_audio_device(&request("t", "headphones")),
        Dispatch::Reply(ToolResponse::Error("invalid tool or option".to_string()))
    );
}

#[test]
fn known_tools_are_the_tools_with_the_known_aliases() {
    let known = AudioTools::with_aliases(vec![
        Alias { option: "headphones".to_string(), pattern: "headphone".to_string() },
        Alias { option: "usb speaker".to_string(), pattern: "usb speaker".to_string() },
    ]);
    assert_eq!(AudioTools::new(), known);
}

#[test]
fn changed_default_is_answered_with_ok() {
    let response = respond(&Outcome::DefaultChanged { id: "x".to_string() });
    assert_eq!(response, ToolResponse::Done);
    assert_eq!(response.member(), ("result".to_string(), "ok".to_string()));
}

#[test]
fn failure_is_answered_with_its_sentence() {
    let response = respond(&Outcome::Failed(OperationError::NoMatchFound));
    assert_eq!(response, ToolResponse::Error("no matching device found".to_string()));
    assert_eq!(response.member(), ("error".to_string(), "no matching device found".to_string()));
    assert_eq!(
        respond(&Outcome::Failed(OperationError::PolicyCommit { code: -1 })),
        ToolResponse::Error("default device could not be set".to_string())
    );
    assert_eq!(
        respond(&Outcome::Failed(OperationError::PolicyResolution { code: None })),
        ToolResponse::Error("policy service could not be reached".to_string())
    );
    assert_eq!(
        respond(&Outcome::Failed(OperationError::ResourceInit { code: -1 })),
        ToolResponse::Error("threading model could not be initialized".to_string())
    );
    assert_eq!(
        respond(&Outcome::Failed(OperationError::Enumeration { code: -1 })),
        ToolResponse::Error("audio endpoints could not be enumerated".to_string())
    );
}

#[test]
fn listing_is_answered_with_ok_unless_it_had_a_problem() {
    let fine = Outcome::Devices {
        devices: vec![AudioDevice { id: "a".to_string(), name: "A".to_string() }],
        problem: None,
    };
    assert_eq!(respond(&fine), ToolResponse::Done);
    let empty = Outcome::Devices {
        devices: Vec::new(),
        problem: Some(OperationError::Enumeration { code: -1 }),
    };
    assert_eq!(
        respond(&empty),
        ToolResponse::Error("audio endpoints could not be enumerated".to_string())
    );
}

#[test]
fn headphones_request_makes_one_selection_by_headphone() {
    let tools = AudioTools::new();
    let dispatch = tools.change_audio_device(&request("change_audio_device", "headphones"));
    let pattern = match dispatch {
        Dispatch::SelectByName(pattern) => pattern,
        Dispatch::Reply(_) => panic!("a known option must lead to a selection"),
    };
    assert_eq!(pattern, "headphone");
    let (operation, first) = set_default_output_by_name(&pattern);
    let mut trace = vec![first];
    let mut operation = operation;
    let events = vec![
        Event::Status { code: 0 },
        Event::Endpoints {
            probes: vec![
                EndpointProbe { id: Some("id-1".to_string()), name: Some("Speakers".to_string()) },
                EndpointProbe {
                    id: Some("id-2".to_string()),
                    name: Some("Bose HEADPHONES".to_string()),
                },
            ],
        },
        Event::Instance { code: 0, present: true },
        Event::Status { code: 0 },
        Event::Released,
        Event::Released,
    ];
    for event in events {
        let (next, action) = operation.step(event);
        operation = next;
        trace.extend(action);
    }
    let outcome = match trace.pop() {
        Some(Action::Finish(outcome)) => outcome,
        _ => panic!("the run must have ended"),
    };
    assert_eq!(outcome, Outcome::DefaultChanged { id: "id-2".to_string() });
    assert_eq!(respond(&outcome), ToolResponse::Done);
    let commits: Vec<&Action> =
        trace.iter().filter(|a| matches!(a, Action::SetDefaultEndpoint { .. })).collect();
    assert_eq!(commits.len(), 1);
}
