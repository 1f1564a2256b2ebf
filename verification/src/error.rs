//! The failures that an operation reports.

use vstd::prelude::*;

verus! {

/// Why an operation did not do what it was asked to.
#[derive(Clone, Copy, Debug, PartialEq, Eq)]
#[allow(inconsistent_fields)]
pub enum OperationError {
    /// The threading-model resource could not be established.
    ResourceInit { code: i32 },
    /// The collection of endpoints could not be had.
    Enumeration { code: i32 },
    /// No listed endpoint meets the criterion.
    NoMatchFound,
    /// No candidate gave a live policy instance; `code` is the status of the
    /// last one tried, or nothing where there was no candidate to try.
    PolicyResolution { code: Option<i32> },
    /// The policy instance was there, and refused to change the default.
    PolicyCommit { code: i32 },
}

/// The sentence that stands for each failure.
pub open spec fn description_of(error: OperationError) -> Seq<char> {
    match error {
        OperationError::ResourceInit { .. } => "threading model could not be initialized"@,
        OperationError::Enumeration { .. } => "audio endpoints could not be enumerated"@,
        OperationError::NoMatchFound => "no matching device found"@,
        OperationError::PolicyResolution { .. } => "policy service could not be reached"@,
        OperationError::PolicyCommit { .. } => "default device could not be set"@,
    }
}

/// The platform status that came with a failure, where one did.
pub open spec fn status_of(error: OperationError) -> Option<i32> {
    match error {
        OperationError::ResourceInit { code } => Some(code),
        OperationError::Enumeration { code } => Some(code),
        OperationError::NoMatchFound => None,
        OperationError::PolicyResolution { code } => code,
        OperationError::PolicyCommit { code } => Some(code),
    }
}

impl OperationError {
    /// A sentence for the failure, for a log or a reply.
    pub fn describe(&self) -> (text: String)
        ensures
            text@ == description_of(*self),
    {
        match self {
            OperationError::ResourceInit { .. } => "threading model could not be initialized".to_owned(),
            OperationError::Enumeration { .. } => "audio endpoints could not be enumerated".to_owned(),
            OperationError::NoMatchFound => "no matching device found".to_owned(),
            OperationError::PolicyResolution { .. } => "policy service could not be reached".to_owned(),
            OperationError::PolicyCommit { .. } => "default device could not be set".to_owned(),
        }
    }

    /// The platform status that came with the failure, where one did.
    pub fn status(&self) -> (code: Option<i32>)
        ensures
            code == status_of(*self),
    {
        match self {
            OperationError::ResourceInit { code } => Some(*code),
            OperationError::Enumeration { code } => Some(*code),
            OperationError::NoMatchFound => None,
            OperationError::PolicyResolution { code } => *code,
            OperationError::PolicyCommit { code } => Some(*code),
        }
    }
}

} // verus!
