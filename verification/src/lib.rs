//! Decision core of an audio-output switcher.
//!
//! The operating system is never touched from here. Every operation is a
//! state machine: it names the next platform call as an [`operation::Action`],
//! the caller performs it and hands the reply back as an [`operation::Event`].
//! Which endpoints are listed, which one a criterion selects, which policy
//! candidate is tried next and what has to be released are all decided, and
//! proved, in this crate.

pub mod api;
pub mod device;
pub mod error;
pub mod laws;
pub mod listener;
pub mod operation;
pub mod policy;
pub mod selector;
pub mod session;
pub mod text;
pub mod tools;
pub mod trace;

pub use api::{commit_default, list_devices, set_default_output_by_id_str, set_default_output_by_name};
pub use device::{AudioDevice, EndpointProbe};
pub use error::OperationError;
pub use listener::{start_mcp_server, Listener, ListenerAction, ListenerEvent};
pub use operation::{Action, Event, Operation, Outcome, Request};
pub use policy::PolicyCandidate;
pub use selector::MatchCriterion;
pub use tools::{respond, Alias, AudioTools, Dispatch, ToolRequest, ToolResponse};
pub use trace::replay;
