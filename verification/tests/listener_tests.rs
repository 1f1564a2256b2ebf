use audio_switch::listener::{LOOPBACK, SERVER_PORT};
use audio_switch::{start_mcp_server, Listener, ListenerAction, ListenerEvent};

#[test]
fn server_binds_loopback_at_its_port() {
    let (state, action) = start_mcp_server();
    assert_eq!(state, Listener::Binding);
    assert_eq!(action, ListenerAction::Bind { address: 0x7f00_0001, port: 30331 });
    assert_eq!(LOOPBACK.to_be_bytes(), [127, 0, 0, 1]);
    assert_eq!(SERVER_PORT, 30331);
}

#[test]
fn bound_listener_accepts() {
    let (state, _) = start_mcp_server();
    assert_eq!(state.step(ListenerEvent::Bound), (Listener::Accepting, Some(ListenerAction::Accept)));
}

#[test]
fn failed_bind_stops_the_server() {
    let (state, _) = start_mcp_server();
    let (state, action) = state.step(ListenerEvent::BindFailed);
    assert_eq!(action, Some(ListenerAction::Stop));
    assert!(state.is_stopped());
}

#[test]
fn every_connection_is_served_and_the_loop_goes_on() {
    let (state, _) = start_mcp_server();
    let (mut state, _) = state.step(ListenerEvent::Bound);
    for _ in 0..100 {
        let (next, action) = state.step(ListenerEvent::Accepted);
        assert_eq!(action, Some(ListenerAction::Serve));
        assert_eq!(next, Listener::Accepting);
        assert!(!next.is_stopped());
        state = next;
    }
}

#[test]
fn failed_accept_stops_the_server() {
    let (state, _) = start_mcp_server();
    let (state, _) = state.step(ListenerEvent::Bound);
    let (state, _) = state.step(ListenerEvent::Accepted);
    let (state, action) = state.step(ListenerEvent::AcceptFailed);
    assert_eq!(action, Some(ListenerAction::Stop));
    assert_eq!(state, Listener::Stopped);
}

#[test]
fn stopped_server_takes_nothing() {
    let stopped = Listener::Stopped;
    for event in [
        ListenerEvent::Bound,
        ListenerEvent::BindFailed,
        ListenerEvent::Accepted,
        ListenerEvent::AcceptFailed,
    ] {
        assert_eq!(stopped.step(event), (Listener::Stopped, None));
    }
}

#[test]
fn events_out_of_turn_change_nothing() {
    assert_eq!(Listener::Binding.step(ListenerEvent::Accepted), (Listener::Binding, None));
    assert_eq!(Listener::Binding.step(ListenerEvent::AcceptFailed), (Listener::Binding, None));
    assert_eq!(Listener::Accepting.step(ListenerEvent::Bound), (Listener::Accepting, None));
    assert_eq!(Listener::Accepting.step(ListenerEvent::BindFailed), (Listener::Accepting, None));
}
